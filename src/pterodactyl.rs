use vstd::prelude::*;

verus! {

/// A game server on the panel, as listed in the configuration.
#[derive(Debug, Clone)]
pub struct PterodactylServer {
    pub id: String,
    pub name: String,
    pub display_name: String,
    pub category: PterodactylServerCategory,
}

#[derive(Debug, Copy, Clone, PartialEq, Eq, Structural, PartialOrd, Ord, Hash)]
pub enum PterodactylServerCategory {
    Smp,
    Cmp,
    Copy,
    Patreon,
    Protobot,
    OtherTechServer,
}

impl PterodactylServerCategory {
    /// Every category but other tech servers belongs to the community.
    pub fn is_proto(&self) -> (r: bool)
        ensures
            r == (*self != PterodactylServerCategory::OtherTechServer),
    {
        *self != Self::OtherTechServer
    }

    pub fn is_proto_minecraft(&self) -> (r: bool)
        ensures
            r == (*self == PterodactylServerCategory::Smp || *self == PterodactylServerCategory::Cmp
                || *self == PterodactylServerCategory::Copy || *self
                == PterodactylServerCategory::Patreon),
    {
        match self {
            Self::Smp | Self::Cmp | Self::Copy | Self::Patreon => true,
            Self::Protobot | Self::OtherTechServer => false,
        }
    }

    /// Players are operators on the creative and copy servers only.
    pub fn should_be_opped(&self) -> (r: bool)
        ensures
            r == (*self == PterodactylServerCategory::Cmp || *self == PterodactylServerCategory::Copy),
    {
        match self {
            Self::Cmp | Self::Copy => true,
            _ => false,
        }
    }
}

/// Picks server categories.
pub trait PterodactylServerCategoryFilter {
    spec fn accepts(&self, category: PterodactylServerCategory) -> bool;

    fn test(&mut self, category: PterodactylServerCategory) -> (r: bool)
        ensures
            r == old(self).accepts(category),
    ;
}

/// A category picks itself.
impl PterodactylServerCategoryFilter for PterodactylServerCategory {
    open spec fn accepts(&self, category: PterodactylServerCategory) -> bool {
        category == *self
    }

    fn test(&mut self, category: PterodactylServerCategory) -> (r: bool) {
        category == *self
    }
}

/// A list picks the categories it holds.
impl PterodactylServerCategoryFilter for [PterodactylServerCategory] {
    open spec fn accepts(&self, category: PterodactylServerCategory) -> bool {
        self@.contains(category)
    }

    fn test(&mut self, category: PterodactylServerCategory) -> (r: bool) {
        let mut i: usize = 0;
        while i < self.len()
            invariant
                i <= self@.len(),
                forall|j: int| 0 <= j < i ==> self@[j] != category,
            decreases self@.len() - i,
        {
            if self[i] == category {
                assert(self@[i as int] == category);
                return true;
            }
            i = i + 1;
        }
        false
    }
}

/// Panel e-mail addresses by permission level.
#[derive(Debug)]
pub struct PterodactylEmails {
    pub superadmin: Vec<String>,
    pub admin: Vec<String>,
    pub normal: Vec<String>,
    pub ignore: Vec<String>,
}

#[derive(Debug)]
pub struct PterodactylAllPerms {
    pub superadmin: PterodactylPerms,
    pub admin: PterodactylPerms,
    pub normal: PterodactylPerms,
}

/// Panel permissions of one level: a default list, and lists that replace it
/// for some categories.
#[derive(Debug)]
pub struct PterodactylPerms {
    pub default: Vec<String>,
    pub overrides: Vec<(PterodactylServerCategory, Vec<String>)>,
}

/// The permissions that apply to a category: the first override for it, or
/// the default.
pub open spec fn perms_for(
    default: Seq<String>,
    overrides: Seq<(PterodactylServerCategory, Vec<String>)>,
    category: PterodactylServerCategory,
) -> Seq<String>
    decreases overrides.len(),
{
    if overrides.len() == 0 {
        default
    } else if overrides[0].0 == category {
        overrides[0].1@
    } else {
        perms_for(default, overrides.drop_first(), category)
    }
}

impl PterodactylPerms {
    pub fn get_perms(&self, category: PterodactylServerCategory) -> (r: &[String])
        ensures
            r@ == perms_for(self.default@, self.overrides@, category),
    {
        let mut i: usize = 0;
        assert(self.overrides@.skip(0) =~= self.overrides@);
        while i < self.overrides.len()
            invariant
                i <= self.overrides@.len(),
                perms_for(self.default@, self.overrides@.skip(i as int), category) == perms_for(
                    self.default@,
                    self.overrides@,
                    category,
                ),
            decreases self.overrides@.len() - i,
        {
            assert(self.overrides@.skip(i as int).drop_first() =~= self.overrides@.skip(i + 1));
            if self.overrides[i].0 == category {
                return self.overrides[i].1.as_slice();
            }
            i = i + 1;
        }
        assert(self.overrides@.skip(i as int) =~= Seq::<(PterodactylServerCategory, Vec<String>)>::empty());
        self.default.as_slice()
    }
}

} // verus!
