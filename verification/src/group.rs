use vstd::prelude::*;

verus! {

/// Configuration for one satellite group: a label together with exactly one
/// of a COSPAR designator (`id`) or a named catalog collection (`group`).
pub struct GroupConfig {
    pub label: String,
    pub id: Option<String>,
    pub group: Option<String>,
}

impl GroupConfig {
    /// Exactly one of the designator and the collection name is set.
    pub open spec fn wf(&self) -> bool {
        self.id is Some <==> self.group is None
    }

    /// A group configuration that queries the catalog by COSPAR designator.
    pub fn with_id(label: String, cospar_id: String) -> (c: GroupConfig)
        ensures
            c.label@ == label@,
            c.id matches Some(s) && s@ == cospar_id@,
            c.group is None,
            c.wf(),
    {
        GroupConfig { label, id: Some(cospar_id), group: None }
    }

    /// A group configuration that queries the catalog by collection name.
    pub fn with_group(label: String, group_name: String) -> (c: GroupConfig)
        ensures
            c.label@ == label@,
            c.group matches Some(s) && s@ == group_name@,
            c.id is None,
            c.wf(),
    {
        GroupConfig { label, id: None, group: Some(group_name) }
    }
}

/// Configuration for the satellite-group roster: how long fetched elements
/// stay valid, and which groups are offered.
pub struct SatelliteGroupsConfig {
    pub cache_lifetime_min: u64,
    pub groups: Vec<GroupConfig>,
}

impl Default for SatelliteGroupsConfig {
    /// The built-in roster: a two-hour cache lifetime and nineteen groups,
    /// two identified by COSPAR designator and the rest by collection name.
    fn default() -> (c: Self)
        ensures
            c.cache_lifetime_min == 120,
            c.groups.len() == 19,
            forall|i: int| 0 <= i < c.groups.len() ==> (#[trigger] c.groups[i]).wf(),
    {
        let mut groups: Vec<GroupConfig> = Vec::new();
        groups.push(GroupConfig::with_id("ISS".to_owned(), "1998-067A".to_owned()));
        groups.push(GroupConfig::with_id("CSS".to_owned(), "2021-035A".to_owned()));
        groups.push(GroupConfig::with_group("Weather".to_owned(), "weather".to_owned()));
        groups.push(GroupConfig::with_group("NOAA".to_owned(), "noaa".to_owned()));
        groups.push(GroupConfig::with_group("GOES".to_owned(), "goes".to_owned()));
        groups.push(GroupConfig::with_group("Earth resources".to_owned(), "resource".to_owned()));
        groups.push(GroupConfig::with_group("Search & rescue".to_owned(), "sarsat".to_owned()));
        groups.push(GroupConfig::with_group("Disaster monitoring".to_owned(), "dmc".to_owned()));
        groups.push(GroupConfig::with_group("GPS".to_owned(), "gps-ops".to_owned()));
        groups.push(GroupConfig::with_group("GLONASS".to_owned(), "glo-ops".to_owned()));
        groups.push(GroupConfig::with_group("Galileo".to_owned(), "galileo".to_owned()));
        groups.push(GroupConfig::with_group("Beidou".to_owned(), "beidou".to_owned()));
        groups.push(
            GroupConfig::with_group("Space & Earth Science".to_owned(), "science".to_owned()),
        );
        groups.push(GroupConfig::with_group("Geodetic".to_owned(), "geodetic".to_owned()));
        groups.push(GroupConfig::with_group("Engineering".to_owned(), "engineering".to_owned()));
        groups.push(GroupConfig::with_group("Education".to_owned(), "education".to_owned()));
        groups.push(GroupConfig::with_group("Military".to_owned(), "military".to_owned()));
        groups.push(GroupConfig::with_group("Radar calibration".to_owned(), "radar".to_owned()));
        groups.push(GroupConfig::with_group("CubeSats".to_owned(), "cubesat".to_owned()));
        SatelliteGroupsConfig { cache_lifetime_min: 120, groups }
    }
}

/// How a group is identified at the remote catalog: a COSPAR designator or a
/// named collection.
#[derive(Clone, Eq, Hash, Debug)]
pub enum Identifier {
    /// COSPAR ID.
    Id(String),
    /// Collection name.
    Group(String),
}

impl Identifier {
    /// The identifier's text; callers derive the cache key from it.
    pub open spec fn spec_value(&self) -> Seq<char> {
        match self {
            Identifier::Id(s) => s@,
            Identifier::Group(s) => s@,
        }
    }

    /// Returns the identifier's text.
    pub fn value(&self) -> (r: &str)
        ensures
            r@ == self.spec_value(),
    {
        match self {
            Identifier::Id(s) => s.as_str(),
            Identifier::Group(s) => s.as_str(),
        }
    }
}

impl PartialEq for Identifier {
    /// Two identifiers are equal when they are the same kind and carry the
    /// same text.
    fn eq(&self, other: &Self) -> bool {
        match (self, other) {
            (Identifier::Id(a), Identifier::Id(b)) => *a == *b,
            (Identifier::Group(a), Identifier::Group(b)) => *a == *b,
            _ => false,
        }
    }
}

impl vstd::std_specs::cmp::PartialEqSpecImpl for Identifier {
    open spec fn obeys_eq_spec() -> bool {
        true
    }

    open spec fn eq_spec(&self, other: &Self) -> bool {
        match (self, other) {
            (Identifier::Id(a), Identifier::Id(b)) => a@ == b@,
            (Identifier::Group(a), Identifier::Group(b)) => a@ == b@,
            (Identifier::Id(_), Identifier::Group(_)) => false,
            (Identifier::Group(_), Identifier::Id(_)) => false,
        }
    }
}

/// One selectable satellite group: a label shown to the user and the
/// identifier used to query the remote catalog.
#[derive(Clone, Eq, Debug)]
pub struct Group {
    label: String,
    identifier: Identifier,
}

impl Group {
    /// The group's label.
    pub closed spec fn spec_label(&self) -> Seq<char> {
        self.label@
    }

    /// The group's catalog identifier.
    pub closed spec fn spec_identifier(&self) -> Identifier {
        self.identifier
    }

    /// Returns the label.
    pub fn label(&self) -> (r: &str)
        ensures
            r@ == self.spec_label(),
    {
        self.label.as_str()
    }

    /// Returns the catalog identifier.
    pub fn identifier(&self) -> (r: &Identifier)
        ensures
            *r == self.spec_identifier(),
    {
        &self.identifier
    }

    /// Builds a group from its configuration entry.
    pub fn from_config(config: GroupConfig) -> (g: Group)
        requires
            config.wf(),
        ensures
            g.spec_label() == config.label@,
            config.id matches Some(s) ==> g.spec_identifier() matches Identifier::Id(t) && t@
                == s@,
            config.id is None ==> (config.group matches Some(s) && (g.spec_identifier()
                matches Identifier::Group(t) && t@ == s@)),
    {
        let GroupConfig { label, id, group } = config;
        match id {
            Some(cospar_id) => Group { label, identifier: Identifier::Id(cospar_id) },
            None => Group { label, identifier: Identifier::Group(group.unwrap()) },
        }
    }

    /// The remote catalog query parameter for this group: `INTDES` with the
    /// designator, or `GROUP` with the collection name. The two are mutually
    /// exclusive by construction.
    pub fn query_parameter(&self) -> (kv: (&str, &str))
        ensures
            self.spec_identifier() matches Identifier::Id(s) ==> kv.0@ == "INTDES"@ && kv.1@
                == s@,
            self.spec_identifier() matches Identifier::Group(s) ==> kv.0@ == "GROUP"@ && kv.1@
                == s@,
    {
        match &self.identifier {
            Identifier::Id(s) => ("INTDES", s.as_str()),
            Identifier::Group(s) => ("GROUP", s.as_str()),
        }
    }
}

/// The lowercase form that str::to_lowercase gives a string, by Unicode's
/// case-mapping tables.
pub uninterp spec fn lower_of(s: Seq<char>) -> Seq<char>;

/// Relies on std's str::to_lowercase: the lowercase form of the text, a
/// function of the characters alone.
#[verifier::external_body]
fn to_lowercase(s: &str) -> (r: String)
    ensures
        r@ == lower_of(s@),
{
    s.to_lowercase()
}

impl Group {
    /// The key under which this group's elements are cached: the lowercase
    /// identifier text. Callers name the cache file after it.
    pub fn cache_key(&self) -> (r: String)
        ensures
            r@ == lower_of(self.spec_identifier().spec_value()),
    {
        to_lowercase(self.identifier.value())
    }
}

impl PartialEq for Group {
    /// Two groups are the same group when their identifiers are equal; the
    /// label is display text only.
    fn eq(&self, other: &Self) -> bool {
        self.identifier == other.identifier
    }
}

impl vstd::std_specs::cmp::PartialEqSpecImpl for Group {
    open spec fn obeys_eq_spec() -> bool {
        true
    }

    open spec fn eq_spec(&self, other: &Self) -> bool {
        vstd::std_specs::cmp::PartialEqSpec::eq_spec(
            &self.spec_identifier(),
            &other.spec_identifier(),
        )
    }
}

/// How a satellite group is identified at the remote catalog in the
/// station-list variant of the roster.
#[derive(Clone, Eq, Hash, Debug)]
pub enum CelestrakId {
    CosparId(String),
    GroupName(String),
}

impl PartialEq for CelestrakId {
    fn eq(&self, other: &Self) -> bool {
        match (self, other) {
            (CelestrakId::CosparId(a), CelestrakId::CosparId(b)) => *a == *b,
            (CelestrakId::GroupName(a), CelestrakId::GroupName(b)) => *a == *b,
            _ => false,
        }
    }
}

impl vstd::std_specs::cmp::PartialEqSpecImpl for CelestrakId {
    open spec fn obeys_eq_spec() -> bool {
        true
    }

    open spec fn eq_spec(&self, other: &Self) -> bool {
        match (self, other) {
            (CelestrakId::CosparId(a), CelestrakId::CosparId(b)) => a@ == b@,
            (CelestrakId::GroupName(a), CelestrakId::GroupName(b)) => a@ == b@,
            (CelestrakId::CosparId(_), CelestrakId::GroupName(_)) => false,
            (CelestrakId::GroupName(_), CelestrakId::CosparId(_)) => false,
        }
    }
}

/// A satellite group addressed directly by its CelesTrak identifier.
#[derive(Clone, Eq, Debug)]
pub struct SatelliteGroup {
    label: String,
    celestrak_id: CelestrakId,
}

impl SatelliteGroup {
    /// The group's label.
    pub closed spec fn spec_label(&self) -> Seq<char> {
        self.label@
    }

    /// The group's CelesTrak identifier.
    pub closed spec fn spec_celestrak_id(&self) -> CelestrakId {
        self.celestrak_id
    }

    /// Creates a new `SatelliteGroup`.
    pub fn new(label: String, celestrak_id: CelestrakId) -> (g: SatelliteGroup)
        ensures
            g.spec_label() == label@,
            g.spec_celestrak_id() == celestrak_id,
    {
        SatelliteGroup { label, celestrak_id }
    }

    /// Returns the label.
    pub fn label(&self) -> (r: &str)
        ensures
            r@ == self.spec_label(),
    {
        self.label.as_str()
    }
}

impl PartialEq for SatelliteGroup {
    /// Two groups are the same group when their identifiers are equal.
    fn eq(&self, other: &Self) -> bool {
        self.celestrak_id == other.celestrak_id
    }
}

impl vstd::std_specs::cmp::PartialEqSpecImpl for SatelliteGroup {
    open spec fn obeys_eq_spec() -> bool {
        true
    }

    open spec fn eq_spec(&self, other: &Self) -> bool {
        vstd::std_specs::cmp::PartialEqSpec::eq_spec(
            &self.spec_celestrak_id(),
            &other.spec_celestrak_id(),
        )
    }
}

} // verus!
