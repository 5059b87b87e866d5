//! Dataset identities, the kinds of data they hold, and the names of their tables.

use vstd::prelude::*;

verus! {

/// The shape of a dataset's table and of its snapshot.
#[derive(PartialEq, Eq, Structural, Clone, Copy, Debug)]
pub enum DatasetKind {
    TextSet,
    TextMap,
    TextMapList,
    IpSet,
    IpMap,
    IpMapList,
    IpNet,
    GeoIp,
}

/// The errors that the manager reports.
#[derive(PartialEq, Eq, Structural, Clone, Copy, Debug)]
pub enum DatasetError {
    StorageOpenFailed,
    StorageApplyFailed,
    StorageLoadFailed,
    UnknownKind,
    Backpressure,
    ChannelClosed,
    InvalidName,
    NotRegistered,
}

/// The tag of an identity, without the name that custom identities carry.
#[derive(PartialEq, Eq, Structural, Clone, Copy, Debug)]
pub enum DatasetTag {
    GeoIp,
    IpMac,
    IpDNS,
    MacHost,
    HostUser,
    BlockIp,
    BlockDomain,
    BlockEmailSender,
    BlockCountry,
    UserTag,
    AssetTag,
    IpCloudService,
    IpCloudProvider,
    UserHeadquarters,
    IpHeadquarters,
    HeadquartersWorkingHours,
    HostVulnerable,
    CorrelationRules,
    CustomMapIpNet,
    CustomMapText,
    CustomMapTextList,
    CustomIpList,
    CustomIpMap,
    CustomTextList,
    MantainceCalendar,
    Configuration,
    Secrets,
    I18n,
}

/// The identity of a dataset: a well-known tag, or a custom tag with a name.
#[derive(Clone, Debug, PartialOrd, Ord, Hash)]
pub enum DatasetType {
    GeoIp,
    IpMac,
    IpDNS,
    MacHost,
    HostUser,
    BlockIp,
    BlockDomain,
    BlockEmailSender,
    BlockCountry,
    UserTag,
    AssetTag,
    IpCloudService,
    IpCloudProvider,
    UserHeadquarters,
    IpHeadquarters,
    HeadquartersWorkingHours,
    HostVulnerable,
    CorrelationRules,
    CustomMapIpNet(String),
    CustomMapText(String),
    CustomMapTextList(String),
    CustomIpList(String),
    CustomIpMap(String),
    CustomTextList(String),
    MantainceCalendar,
    Configuration,
    Secrets(String),
    I18n,
}

impl DatasetTag {
    /// Whether the tag carries a user-chosen name.
    pub open spec fn is_custom(self) -> bool {
        match self {
            DatasetTag::CustomMapIpNet | DatasetTag::CustomMapText | DatasetTag::CustomMapTextList
            | DatasetTag::CustomIpList | DatasetTag::CustomIpMap | DatasetTag::CustomTextList
            | DatasetTag::Secrets => true,
            _ => false,
        }
    }

    /// The kind of data that datasets with this tag hold, if it is a supported one.
    pub open spec fn kind(self) -> Option<DatasetKind> {
        match self {
            DatasetTag::GeoIp => Some(DatasetKind::GeoIp),
            DatasetTag::IpMac => Some(DatasetKind::IpMap),
            DatasetTag::IpDNS => Some(DatasetKind::IpMapList),
            DatasetTag::MacHost => Some(DatasetKind::TextMap),
            DatasetTag::HostUser => Some(DatasetKind::TextMap),
            DatasetTag::BlockIp => Some(DatasetKind::IpSet),
            DatasetTag::BlockDomain => Some(DatasetKind::TextSet),
            DatasetTag::BlockEmailSender => Some(DatasetKind::TextSet),
            DatasetTag::BlockCountry => Some(DatasetKind::TextSet),
            DatasetTag::UserTag => Some(DatasetKind::TextMapList),
            DatasetTag::AssetTag => Some(DatasetKind::TextMapList),
            DatasetTag::IpCloudService => Some(DatasetKind::IpNet),
            DatasetTag::IpCloudProvider => Some(DatasetKind::IpNet),
            DatasetTag::UserHeadquarters => Some(DatasetKind::TextMap),
            DatasetTag::IpHeadquarters => Some(DatasetKind::IpNet),
            DatasetTag::HostVulnerable => Some(DatasetKind::TextMapList),
            DatasetTag::CustomMapIpNet => Some(DatasetKind::IpNet),
            DatasetTag::CustomMapText => Some(DatasetKind::TextMap),
            DatasetTag::CustomMapTextList => Some(DatasetKind::TextMapList),
            DatasetTag::CustomIpList => Some(DatasetKind::IpSet),
            DatasetTag::CustomIpMap => Some(DatasetKind::IpMap),
            DatasetTag::CustomTextList => Some(DatasetKind::TextSet),
            DatasetTag::Configuration => Some(DatasetKind::TextMap),
            DatasetTag::Secrets => Some(DatasetKind::TextMap),
            _ => None,
        }
    }

    /// The tag spelled as it is written.
    pub open spec fn spelling(self) -> Seq<char> {
        match self {
            DatasetTag::GeoIp => "GeoIp"@,
            DatasetTag::IpMac => "IpMac"@,
            DatasetTag::IpDNS => "IpDNS"@,
            DatasetTag::MacHost => "MacHost"@,
            DatasetTag::HostUser => "HostUser"@,
            DatasetTag::BlockIp => "BlockIp"@,
            DatasetTag::BlockDomain => "BlockDomain"@,
            DatasetTag::BlockEmailSender => "BlockEmailSender"@,
            DatasetTag::BlockCountry => "BlockCountry"@,
            DatasetTag::UserTag => "UserTag"@,
            DatasetTag::AssetTag => "AssetTag"@,
            DatasetTag::IpCloudService => "IpCloudService"@,
            DatasetTag::IpCloudProvider => "IpCloudProvider"@,
            DatasetTag::UserHeadquarters => "UserHeadquarters"@,
            DatasetTag::IpHeadquarters => "IpHeadquarters"@,
            DatasetTag::HeadquartersWorkingHours => "HeadquartersWorkingHours"@,
            DatasetTag::HostVulnerable => "HostVulnerable"@,
            DatasetTag::CorrelationRules => "CorrelationRules"@,
            DatasetTag::CustomMapIpNet => "CustomMapIpNet"@,
            DatasetTag::CustomMapText => "CustomMapText"@,
            DatasetTag::CustomMapTextList => "CustomMapTextList"@,
            DatasetTag::CustomIpList => "CustomIpList"@,
            DatasetTag::CustomIpMap => "CustomIpMap"@,
            DatasetTag::CustomTextList => "CustomTextList"@,
            DatasetTag::MantainceCalendar => "MantainceCalendar"@,
            DatasetTag::Configuration => "Configuration"@,
            DatasetTag::Secrets => "Secrets"@,
            DatasetTag::I18n => "I18n"@,
        }
    }

    /// The tag spelled as it is written.
    pub fn spelled(self) -> (r: &'static str)
        ensures
            r@ == self.spelling(),
    {
        match self {
            DatasetTag::GeoIp => "GeoIp",
            DatasetTag::IpMac => "IpMac",
            DatasetTag::IpDNS => "IpDNS",
            DatasetTag::MacHost => "MacHost",
            DatasetTag::HostUser => "HostUser",
            DatasetTag::BlockIp => "BlockIp",
            DatasetTag::BlockDomain => "BlockDomain",
            DatasetTag::BlockEmailSender => "BlockEmailSender",
            DatasetTag::BlockCountry => "BlockCountry",
            DatasetTag::UserTag => "UserTag",
            DatasetTag::AssetTag => "AssetTag",
            DatasetTag::IpCloudService => "IpCloudService",
            DatasetTag::IpCloudProvider => "IpCloudProvider",
            DatasetTag::UserHeadquarters => "UserHeadquarters",
            DatasetTag::IpHeadquarters => "IpHeadquarters",
            DatasetTag::HeadquartersWorkingHours => "HeadquartersWorkingHours",
            DatasetTag::HostVulnerable => "HostVulnerable",
            DatasetTag::CorrelationRules => "CorrelationRules",
            DatasetTag::CustomMapIpNet => "CustomMapIpNet",
            DatasetTag::CustomMapText => "CustomMapText",
            DatasetTag::CustomMapTextList => "CustomMapTextList",
            DatasetTag::CustomIpList => "CustomIpList",
            DatasetTag::CustomIpMap => "CustomIpMap",
            DatasetTag::CustomTextList => "CustomTextList",
            DatasetTag::MantainceCalendar => "MantainceCalendar",
            DatasetTag::Configuration => "Configuration",
            DatasetTag::Secrets => "Secrets",
            DatasetTag::I18n => "I18n",
        }
    }
}

/// The tags without a name, whose spelling no custom dataset may take.
pub open spec fn is_well_known_spelling(s: Seq<char>) -> bool {
    exists|t: DatasetTag| !t.is_custom() && t.spelling() == s
}

/// A character allowed in a custom dataset name: an ASCII letter, digit or `_`.
pub open spec fn is_name_char(c: char) -> bool {
    ('a' <= c && c <= 'z') || ('A' <= c && c <= 'Z') || ('0' <= c && c <= '9') || c == '_'
}

/// A name made of one or more of the allowed characters.
pub open spec fn is_valid_name(s: Seq<char>) -> bool {
    s.len() > 0 && forall|i: int| 0 <= i < s.len() ==> is_name_char(#[trigger] s[i])
}

/// The name under which an identity's table is stored.
pub open spec fn table_name_of(id: (DatasetTag, Seq<char>)) -> Result<Seq<char>, DatasetError> {
    if id.0.kind() is None {
        Err(DatasetError::UnknownKind)
    } else if !id.0.is_custom() {
        Ok(id.0.spelling())
    } else if is_valid_name(id.1) && !is_well_known_spelling(id.1) {
        Ok(id.1)
    } else {
        Err(DatasetError::InvalidName)
    }
}

impl View for DatasetType {
    type V = (DatasetTag, Seq<char>);

    /// The tag and, for a custom identity, its name (empty otherwise).
    open spec fn view(&self) -> (DatasetTag, Seq<char>) {
        match self {
            DatasetType::GeoIp => (DatasetTag::GeoIp, Seq::empty()),
            DatasetType::IpMac => (DatasetTag::IpMac, Seq::empty()),
            DatasetType::IpDNS => (DatasetTag::IpDNS, Seq::empty()),
            DatasetType::MacHost => (DatasetTag::MacHost, Seq::empty()),
            DatasetType::HostUser => (DatasetTag::HostUser, Seq::empty()),
            DatasetType::BlockIp => (DatasetTag::BlockIp, Seq::empty()),
            DatasetType::BlockDomain => (DatasetTag::BlockDomain, Seq::empty()),
            DatasetType::BlockEmailSender => (DatasetTag::BlockEmailSender, Seq::empty()),
            DatasetType::BlockCountry => (DatasetTag::BlockCountry, Seq::empty()),
            DatasetType::UserTag => (DatasetTag::UserTag, Seq::empty()),
            DatasetType::AssetTag => (DatasetTag::AssetTag, Seq::empty()),
            DatasetType::IpCloudService => (DatasetTag::IpCloudService, Seq::empty()),
            DatasetType::IpCloudProvider => (DatasetTag::IpCloudProvider, Seq::empty()),
            DatasetType::UserHeadquarters => (DatasetTag::UserHeadquarters, Seq::empty()),
            DatasetType::IpHeadquarters => (DatasetTag::IpHeadquarters, Seq::empty()),
            DatasetType::HeadquartersWorkingHours => (
                DatasetTag::HeadquartersWorkingHours,
                Seq::empty(),
            ),
            DatasetType::HostVulnerable => (DatasetTag::HostVulnerable, Seq::empty()),
            DatasetType::CorrelationRules => (DatasetTag::CorrelationRules, Seq::empty()),
            DatasetType::CustomMapIpNet(n) => (DatasetTag::CustomMapIpNet, n@),
            DatasetType::CustomMapText(n) => (DatasetTag::CustomMapText, n@),
            DatasetType::CustomMapTextList(n) => (DatasetTag::CustomMapTextList, n@),
            DatasetType::CustomIpList(n) => (DatasetTag::CustomIpList, n@),
            DatasetType::CustomIpMap(n) => (DatasetTag::CustomIpMap, n@),
            DatasetType::CustomTextList(n) => (DatasetTag::CustomTextList, n@),
            DatasetType::MantainceCalendar => (DatasetTag::MantainceCalendar, Seq::empty()),
            DatasetType::Configuration => (DatasetTag::Configuration, Seq::empty()),
            DatasetType::Secrets(n) => (DatasetTag::Secrets, n@),
            DatasetType::I18n => (DatasetTag::I18n, Seq::empty()),
        }
    }
}

impl PartialEq for DatasetType {
    fn eq(&self, o: &DatasetType) -> (r: bool) {
        self.same_as(o)
    }
}

impl vstd::std_specs::cmp::PartialEqSpecImpl for DatasetType {
    open spec fn obeys_eq_spec() -> bool {
        true
    }

    open spec fn eq_spec(&self, o: &DatasetType) -> bool {
        self@ == o@
    }
}

impl Eq for DatasetType {

}

/// Whether two strings hold the same characters.
pub fn str_eq(a: &str, b: &str) -> (r: bool)
    ensures
        r == (a@ == b@),
{
    let n = a.unicode_len();
    if n != b.unicode_len() {
        return false;
    }
    let mut i: usize = 0;
    while i < n
        invariant
            n == a@.len() == b@.len(),
            i <= n,
            forall|j: int| 0 <= j < i ==> a@[j] == b@[j],
        decreases n - i,
    {
        if a.get_char(i) != b.get_char(i) {
            return false;
        }
        i = i + 1;
    }
    assert(a@ =~= b@);
    true
}

/// Whether `s` is a valid custom dataset name.
pub fn valid_name(s: &str) -> (r: bool)
    ensures
        r == is_valid_name(s@),
{
    let n = s.unicode_len();
    if n == 0 {
        return false;
    }
    let mut i: usize = 0;
    while i < n
        invariant
            n == s@.len(),
            i <= n,
            forall|j: int| 0 <= j < i ==> is_name_char(#[trigger] s@[j]),
        decreases n - i,
    {
        let c = s.get_char(i);
        if !(('a' <= c && c <= 'z') || ('A' <= c && c <= 'Z') || ('0' <= c && c <= '9') || c
            == '_') {
            return false;
        }
        i = i + 1;
    }
    true
}

/// Whether `s` is the spelling of a tag without a name.
pub fn well_known_spelling(s: &str) -> (r: bool)
    ensures
        r == is_well_known_spelling(s@),
{
    let tags = [
        DatasetTag::GeoIp,
        DatasetTag::IpMac,
        DatasetTag::IpDNS,
        DatasetTag::MacHost,
        DatasetTag::HostUser,
        DatasetTag::BlockIp,
        DatasetTag::BlockDomain,
        DatasetTag::BlockEmailSender,
        DatasetTag::BlockCountry,
        DatasetTag::UserTag,
        DatasetTag::AssetTag,
        DatasetTag::IpCloudService,
        DatasetTag::IpCloudProvider,
        DatasetTag::UserHeadquarters,
        DatasetTag::IpHeadquarters,
        DatasetTag::HeadquartersWorkingHours,
        DatasetTag::HostVulnerable,
        DatasetTag::CorrelationRules,
        DatasetTag::MantainceCalendar,
        DatasetTag::Configuration,
        DatasetTag::I18n,
    ];
    let mut i: usize = 0;
    while i < 21
        invariant
            i <= 21,
            tags@.len() == 21,
            forall|t: DatasetTag| !t.is_custom() ==> #[trigger] tags@.contains(t),
            forall|j: int| 0 <= j < 21 ==> !(#[trigger] tags@[j]).is_custom(),
            forall|j: int| 0 <= j < i ==> (#[trigger] tags@[j]).spelling() != s@,
        decreases 21 - i,
    {
        let t = tags[i];
        if str_eq(s, t.spelled()) {
            return true;
        }
        i = i + 1;
    }
    assert forall|t: DatasetTag| !t.is_custom() implies t.spelling() != s@ by {
        assert(tags@.contains(t));
    }
    false
}

impl DatasetType {
    /// Whether two identities are the same.
    pub fn same_as(&self, o: &DatasetType) -> (r: bool)
        ensures
            r == (self@ == o@),
    {
        let (a, an) = self.parts();
        let (b, bn) = o.parts();
        a == b && str_eq(an, bn)
    }

    /// The tag, and the name (empty where the tag carries none).
    pub fn parts(&self) -> (r: (DatasetTag, &str))
        ensures
            r.0 == self@.0,
            r.1@ == self@.1,
    {
        proof {
            reveal_strlit("");
        }
        match self {
            DatasetType::GeoIp => (DatasetTag::GeoIp, ""),
            DatasetType::IpMac => (DatasetTag::IpMac, ""),
            DatasetType::IpDNS => (DatasetTag::IpDNS, ""),
            DatasetType::MacHost => (DatasetTag::MacHost, ""),
            DatasetType::HostUser => (DatasetTag::HostUser, ""),
            DatasetType::BlockIp => (DatasetTag::BlockIp, ""),
            DatasetType::BlockDomain => (DatasetTag::BlockDomain, ""),
            DatasetType::BlockEmailSender => (DatasetTag::BlockEmailSender, ""),
            DatasetType::BlockCountry => (DatasetTag::BlockCountry, ""),
            DatasetType::UserTag => (DatasetTag::UserTag, ""),
            DatasetType::AssetTag => (DatasetTag::AssetTag, ""),
            DatasetType::IpCloudService => (DatasetTag::IpCloudService, ""),
            DatasetType::IpCloudProvider => (DatasetTag::IpCloudProvider, ""),
            DatasetType::UserHeadquarters => (DatasetTag::UserHeadquarters, ""),
            DatasetType::IpHeadquarters => (DatasetTag::IpHeadquarters, ""),
            DatasetType::HeadquartersWorkingHours => (DatasetTag::HeadquartersWorkingHours, ""),
            DatasetType::HostVulnerable => (DatasetTag::HostVulnerable, ""),
            DatasetType::CorrelationRules => (DatasetTag::CorrelationRules, ""),
            DatasetType::CustomMapIpNet(n) => (DatasetTag::CustomMapIpNet, n.as_str()),
            DatasetType::CustomMapText(n) => (DatasetTag::CustomMapText, n.as_str()),
            DatasetType::CustomMapTextList(n) => (DatasetTag::CustomMapTextList, n.as_str()),
            DatasetType::CustomIpList(n) => (DatasetTag::CustomIpList, n.as_str()),
            DatasetType::CustomIpMap(n) => (DatasetTag::CustomIpMap, n.as_str()),
            DatasetType::CustomTextList(n) => (DatasetTag::CustomTextList, n.as_str()),
            DatasetType::MantainceCalendar => (DatasetTag::MantainceCalendar, ""),
            DatasetType::Configuration => (DatasetTag::Configuration, ""),
            DatasetType::Secrets(n) => (DatasetTag::Secrets, n.as_str()),
            DatasetType::I18n => (DatasetTag::I18n, ""),
        }
    }

    /// A copy of this identity.
    pub fn duplicate(&self) -> (r: DatasetType)
        ensures
            r == *self,
            r@ == self@,
    {
        match self {
            DatasetType::CustomMapIpNet(n) => DatasetType::CustomMapIpNet(n.clone()),
            DatasetType::CustomMapText(n) => DatasetType::CustomMapText(n.clone()),
            DatasetType::CustomMapTextList(n) => DatasetType::CustomMapTextList(n.clone()),
            DatasetType::CustomIpList(n) => DatasetType::CustomIpList(n.clone()),
            DatasetType::CustomIpMap(n) => DatasetType::CustomIpMap(n.clone()),
            DatasetType::CustomTextList(n) => DatasetType::CustomTextList(n.clone()),
            DatasetType::Secrets(n) => DatasetType::Secrets(n.clone()),
            DatasetType::GeoIp => DatasetType::GeoIp,
            DatasetType::IpMac => DatasetType::IpMac,
            DatasetType::IpDNS => DatasetType::IpDNS,
            DatasetType::MacHost => DatasetType::MacHost,
            DatasetType::HostUser => DatasetType::HostUser,
            DatasetType::BlockIp => DatasetType::BlockIp,
            DatasetType::BlockDomain => DatasetType::BlockDomain,
            DatasetType::BlockEmailSender => DatasetType::BlockEmailSender,
            DatasetType::BlockCountry => DatasetType::BlockCountry,
            DatasetType::UserTag => DatasetType::UserTag,
            DatasetType::AssetTag => DatasetType::AssetTag,
            DatasetType::IpCloudService => DatasetType::IpCloudService,
            DatasetType::IpCloudProvider => DatasetType::IpCloudProvider,
            DatasetType::UserHeadquarters => DatasetType::UserHeadquarters,
            DatasetType::IpHeadquarters => DatasetType::IpHeadquarters,
            DatasetType::HeadquartersWorkingHours => DatasetType::HeadquartersWorkingHours,
            DatasetType::HostVulnerable => DatasetType::HostVulnerable,
            DatasetType::CorrelationRules => DatasetType::CorrelationRules,
            DatasetType::MantainceCalendar => DatasetType::MantainceCalendar,
            DatasetType::Configuration => DatasetType::Configuration,
            DatasetType::I18n => DatasetType::I18n,
        }
    }

    /// The kind of data this identity holds; `UnknownKind` where it is not supported.
    pub fn kind(&self) -> (r: Result<DatasetKind, DatasetError>)
        ensures
            r matches Ok(k) ==> self@.0.kind() == Some(k),
            r is Err <==> self@.0.kind() is None,
            r is Err ==> r == Err::<DatasetKind, DatasetError>(DatasetError::UnknownKind),
    {
        let (t, _) = self.parts();
        match t {
            DatasetTag::GeoIp => Ok(DatasetKind::GeoIp),
            DatasetTag::IpMac => Ok(DatasetKind::IpMap),
            DatasetTag::IpDNS => Ok(DatasetKind::IpMapList),
            DatasetTag::MacHost => Ok(DatasetKind::TextMap),
            DatasetTag::HostUser => Ok(DatasetKind::TextMap),
            DatasetTag::BlockIp => Ok(DatasetKind::IpSet),
            DatasetTag::BlockDomain => Ok(DatasetKind::TextSet),
            DatasetTag::BlockEmailSender => Ok(DatasetKind::TextSet),
            DatasetTag::BlockCountry => Ok(DatasetKind::TextSet),
            DatasetTag::UserTag => Ok(DatasetKind::TextMapList),
            DatasetTag::AssetTag => Ok(DatasetKind::TextMapList),
            DatasetTag::IpCloudService => Ok(DatasetKind::IpNet),
            DatasetTag::IpCloudProvider => Ok(DatasetKind::IpNet),
            DatasetTag::UserHeadquarters => Ok(DatasetKind::TextMap),
            DatasetTag::IpHeadquarters => Ok(DatasetKind::IpNet),
            DatasetTag::HostVulnerable => Ok(DatasetKind::TextMapList),
            DatasetTag::CustomMapIpNet => Ok(DatasetKind::IpNet),
            DatasetTag::CustomMapText => Ok(DatasetKind::TextMap),
            DatasetTag::CustomMapTextList => Ok(DatasetKind::TextMapList),
            DatasetTag::CustomIpList => Ok(DatasetKind::IpSet),
            DatasetTag::CustomIpMap => Ok(DatasetKind::IpMap),
            DatasetTag::CustomTextList => Ok(DatasetKind::TextSet),
            DatasetTag::Configuration => Ok(DatasetKind::TextMap),
            DatasetTag::Secrets => Ok(DatasetKind::TextMap),
            _ => Err(DatasetError::UnknownKind),
        }
    }

    /// The name of the identity's table: the tag's spelling, or the validated custom name.
    pub fn table_name(&self) -> (r: Result<String, DatasetError>)
        ensures
            r matches Ok(s) ==> table_name_of(self@) == Ok::<Seq<char>, DatasetError>(s@),
            r matches Err(e) ==> table_name_of(self@) == Err::<Seq<char>, DatasetError>(e),
    {
        let (t, n) = self.parts();
        if self.kind().is_err() {
            return Err(DatasetError::UnknownKind);
        }
        match t {
            DatasetTag::CustomMapIpNet | DatasetTag::CustomMapText | DatasetTag::CustomMapTextList
            | DatasetTag::CustomIpList | DatasetTag::CustomIpMap | DatasetTag::CustomTextList
            | DatasetTag::Secrets => {
                if valid_name(n) && !well_known_spelling(n) {
                    Ok(String::from_str(n))
                } else {
                    Err(DatasetError::InvalidName)
                }
            },
            _ => Ok(String::from_str(t.spelled())),
        }
    }
}

} // verus!
