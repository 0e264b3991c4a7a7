//! The XML resources that `include` tags name, and the version marker in them.
use vstd::prelude::*;

use crate::text::{owned, replace_seq, replace_string};

verus! {

/// The names of the resources, in the order [`Resources`] holds their texts.
pub open spec fn resource_names() -> Seq<Seq<char>> {
    seq![
        "DEFAULT_FUNC_METADATA"@,
        "SWEEP_FUNC_METADATA"@,
        "INITIALIZE_XML"@,
        "SUPPORT_XML"@,
        "DEFAULT_LIMITS_XML"@,
        "MP5000_SWEEP_XML"@,
        "DEFAULT_SWEEP_CHUNK_XML"@,
        "DATA_REPORT_XML"@,
        "FINALIZE_XML"@,
        "NO_STEP_AUTO_XML"@,
        "STEP_AUTO_XML"@,
        "NO_STEP_FIXED_XML"@,
        "STEP_FIXED_XML"@,
    ]
}

/// The number of resources.
pub const RESOURCE_COUNT: usize = 13;

/// The first position at or after `i` of `name` in `names`.
pub open spec fn first_index(names: Seq<Seq<char>>, name: Seq<char>, i: int) -> Option<int>
    decreases names.len() - i,
{
    if i < 0 || i >= names.len() {
        None
    } else if names[i] == name {
        Some(i)
    } else {
        first_index(names, name, i + 1)
    }
}

/// The position of the resource named `name`, if there is one.
pub open spec fn resource_index(name: Seq<char>) -> Option<int> {
    first_index(resource_names(), name, 0)
}

proof fn lemma_first_index_skip(names: Seq<Seq<char>>, name: Seq<char>, i: int)
    requires
        0 <= i <= names.len(),
        forall|k: int| 0 <= k < i ==> names[k] != name,
    ensures
        first_index(names, name, 0) == first_index(names, name, i),
    decreases i,
{
    if i > 0 {
        lemma_first_index_skip(names, name, i - 1);
    }
}

/// The marker that stands for the library version in a resource.
pub open spec fn version_marker() -> Seq<char> {
    "!<!<VERSION>!>!"@
}

/// A resource that can be used as-is, once the version is filled in.
#[derive(Debug)]
pub struct Resource {
    /// The raw resource.
    source: String,
}

/// The texts of all resources, and the version that replaces the marker in them.
#[derive(Debug)]
pub struct Resources {
    version: String,
    items: Vec<Resource>,
}

impl Resource {
    pub closed spec fn source(&self) -> Seq<char> {
        self.source@
    }

    /// The resource's text with the version marker replaced by `version`.
    pub fn render(&self, version: &String) -> (r: String)
        ensures
            r@ == replace_seq(self.source(), version_marker(), version@),
    {
        proof {
            reveal_strlit("!<!<VERSION>!>!");
        }
        replace_string(&self.source, &owned("!<!<VERSION>!>!"), version)
    }

    /// The resource named `input`, if any.
    pub fn match_resource<'a>(input: &str, resources: &'a Resources) -> (r: Option<&'a Resource>)
        ensures
            r is Some <==> resource_index(input@) is Some,
            r matches Some(res) ==> res.source() == resources.texts()[resource_index(input@)->0],
    {
        match resource_position(input) {
            None => None,
            Some(i) => {
                proof {
                    use_type_invariant(resources);
                }
                Some(&resources.items[i])
            },
        }
    }
}

/// The position of the resource named `input`.
pub fn resource_position(input: &str) -> (r: Option<usize>)
    ensures
        r matches Some(i) ==> resource_index(input@) == Some(i as int) && i < RESOURCE_COUNT,
        r is None ==> resource_index(input@) is None,
{
    let names: [&str; 13] = [
        "DEFAULT_FUNC_METADATA",
        "SWEEP_FUNC_METADATA",
        "INITIALIZE_XML",
        "SUPPORT_XML",
        "DEFAULT_LIMITS_XML",
        "MP5000_SWEEP_XML",
        "DEFAULT_SWEEP_CHUNK_XML",
        "DATA_REPORT_XML",
        "FINALIZE_XML",
        "NO_STEP_AUTO_XML",
        "STEP_AUTO_XML",
        "NO_STEP_FIXED_XML",
        "STEP_FIXED_XML",
    ];
    let key = owned(input);
    let mut i: usize = 0;
    while i < 13
        invariant
            i <= 13,
            key@ == input@,
            forall|k: int| 0 <= k < 13 ==> (#[trigger] names@[k])@ == resource_names()[k],
            forall|k: int| 0 <= k < i ==> resource_names()[k] != input@,
        decreases 13 - i,
    {
        if owned(names[i]) == key {
            proof {
                lemma_first_index_skip(resource_names(), input@, i as int);
            }
            return Some(i);
        }
        i = i + 1;
    }
    proof {
        lemma_first_index_skip(resource_names(), input@, 13);
    }
    None
}

impl Resources {
    #[verifier::type_invariant]
    spec fn inv(self) -> bool {
        self.items@.len() == RESOURCE_COUNT
    }

    /// The raw texts, in the order of [`resource_names`].
    pub closed spec fn texts(&self) -> Seq<Seq<char>> {
        self.items@.map_values(|r: Resource| r.source@)
    }

    /// The version that replaces the marker.
    pub closed spec fn version(&self) -> Seq<char> {
        self.version@
    }

    /// The resources with the given texts (in the order of [`resource_names`]).
    pub fn new(version: String, sources: Vec<String>) -> (r: Self)
        requires
            sources@.len() == RESOURCE_COUNT,
        ensures
            r.version() == version@,
            r.texts() == sources@.map_values(|s: String| s@),
    {
        let mut items: Vec<Resource> = Vec::new();
        let mut i: usize = 0;
        while i < sources.len()
            invariant
                i <= sources@.len(),
                items@.len() == i,
                forall|k: int| 0 <= k < i ==> (#[trigger] items@[k]).source@ == sources@[k]@,
            decreases sources.len() - i,
        {
            items.push(Resource { source: sources[i].clone() });
            i = i + 1;
        }
        let r = Resources { version, items };
        assert(r.texts() =~= sources@.map_values(|s: String| s@));
        r
    }

    /// The text of the resource named `name` with the version filled in.
    pub fn text_of(&self, name: &str) -> (r: Option<String>)
        ensures
            r is Some <==> resource_index(name@) is Some,
            r matches Some(t) ==> t@ == replace_seq(
                self.texts()[resource_index(name@)->0],
                version_marker(),
                self.version(),
            ),
    {
        match Resource::match_resource(name, self) {
            None => None,
            Some(res) => Some(res.render(&self.version)),
        }
    }
}

} // verus!
