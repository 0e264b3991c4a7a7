//! The catalog of function metadata, by function type.
use vstd::prelude::*;

use vstd::hash_map::StringHashMap;
use crate::xml_handler::group::{group_view, groups_loop, matches_groups, parse_xml, resource_events, Group, GroupV};
use crate::xml_handler::resources::Resources;

verus! {

/// A catalog of function metadata, keyed by function type (e.g., Initialize, Finalize, etc.)
pub struct Catalog {
    map: StringHashMap<Group>,
}

/// `m` with each group of `gs[i..]` stored under its type, in order.
pub open spec fn insert_groups(m: Map<Seq<char>, GroupV>, gs: Seq<GroupV>, i: int) -> Map<Seq<char>, GroupV>
    decreases gs.len() - i,
{
    if i < 0 || i >= gs.len() {
        m
    } else {
        insert_groups(m.insert(gs[i].type_, gs[i]), gs, i + 1)
    }
}

impl View for Catalog {
    type V = Map<Seq<char>, GroupV>;

    closed spec fn view(&self) -> Map<Seq<char>, GroupV> {
        self.map@.map_values(|g: Group| group_view(g))
    }
}

impl Catalog {
    /// An empty catalog.
    pub fn new() -> (r: Self)
        ensures
            r@ == Map::<Seq<char>, GroupV>::empty(),
    {
        let r = Catalog { map: StringHashMap::new() };
        assert(r@ =~= Map::<Seq<char>, GroupV>::empty());
        r
    }

    /// The metadata of functions of type `key`, if any.
    pub fn get(&self, key: &str) -> (r: Option<&Group>)
        ensures
            r is Some <==> self@.contains_key(key@),
            r matches Some(g) ==> group_view(*g) == self@[key@],
    {
        self.map.get(key)
    }

    /// Stores `group` under `key`, replacing what was stored there.
    pub fn insert(&mut self, key: String, group: Group)
        ensures
            final(self)@ == old(self)@.insert(key@, group_view(group)),
    {
        let ghost k = key@;
        let ghost g = group_view(group);
        self.map.insert(key, group);
        assert(self@ =~= old(self)@.insert(k, g));
    }

    /// Parses the function metadata and stores each group under its type;
    /// when the metadata cannot be parsed, the catalog stays as it was.
    pub fn refresh_function_metadata(&mut self, resources: &Resources)
        ensures
            match groups_loop(
                resource_events(resources.texts(), resources.version(), 0),
                0,
                Seq::empty(),
                resources.texts(),
                resources.version(),
            ) {
                Ok(gs) => final(self)@ == insert_groups(old(self)@, gs, 0),
                Err(_) => final(self)@ == old(self)@,
            },
    {
        let ghost m0 = self@;
        match parse_xml(resources) {
            Ok(groups) => {
                let ghost orig = groups@;
                let ghost gs = orig.map_values(|g: Group| group_view(g));
                let mut groups = groups;
                let ghost mut i: int = 0;
                assert(orig.skip(0) =~= orig);
                while groups.len() > 0
                    invariant
                        0 <= i <= orig.len(),
                        groups@ == orig.skip(i),
                        gs == orig.map_values(|g: Group| group_view(g)),
                        insert_groups(self@, gs, i) == insert_groups(m0, gs, 0),
                    decreases groups.len(),
                {
                    let g = groups.remove(0);
                    assert(g == orig[i]);
                    assert(orig.skip(i).drop_first() =~= orig.skip(i + 1));
                    let key = g.type_.clone();
                    self.insert(key, g);
                    proof {
                        i = i + 1;
                    }
                }
            },
            Err(_) => {},
        }
    }
}

} // verus!
