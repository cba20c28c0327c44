//! The query parameters of a request, as a map from names to values.
use vstd::hash_map::StringHashMap;
use vstd::prelude::*;

verus! {

/// Query parameters, by name; setting a name again replaces its value.
pub struct QueryParams {
    map: StringHashMap<String>,
}

impl View for QueryParams {
    type V = Map<Seq<char>, Seq<char>>;

    closed spec fn view(&self) -> Map<Seq<char>, Seq<char>> {
        self.map@.map_values(|v: String| v@)
    }
}

impl QueryParams {
    /// No parameters.
    pub fn new() -> (params: QueryParams)
        ensures
            params@ == Map::<Seq<char>, Seq<char>>::empty(),
    {
        let params = QueryParams { map: StringHashMap::new() };
        assert(params@ =~= Map::<Seq<char>, Seq<char>>::empty());
        params
    }

    /// Sets parameter `name` to `value`.
    pub fn insert(&mut self, name: String, value: String)
        ensures
            final(self)@ == old(self)@.insert(name@, value@),
    {
        self.map.insert(name, value);
        assert(self@ =~= old(self)@.insert(name@, value@));
    }

    /// The value of parameter `name`, if it is set.
    pub fn get(&self, name: &str) -> (value: Option<&String>)
        ensures
            match value {
                Some(v) => self@.contains_key(name@) && self@[name@] == v@,
                None => !self@.contains_key(name@),
            },
    {
        self.map.get(name)
    }
}

} // verus!
