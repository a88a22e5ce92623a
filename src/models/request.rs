use vstd::prelude::*;

verus! {

/// The header that carries a caller's bearer token.
pub const TOKEN_HEADER: &'static str = "x-api-token";

/// An inbound request as the authorizer sees it: its headers, each a lowercase
/// name and a value, in the order they arrived.
pub struct Request {
    pub headers: Vec<(String, String)>,
}

impl View for Request {
    type V = Seq<(Seq<char>, Seq<char>)>;

    open spec fn view(&self) -> Seq<(Seq<char>, Seq<char>)> {
        self.headers@.map_values(|h: (String, String)| (h.0@, h.1@))
    }
}

/// The value of the first header named `name`.
pub open spec fn header_spec(headers: Seq<(Seq<char>, Seq<char>)>, name: Seq<char>) -> Option<
    Seq<char>,
> {
    if exists|i: int| 0 <= i < headers.len() && #[trigger] headers[i].0 == name {
        let i = choose|i: int|
            0 <= i < headers.len() && #[trigger] headers[i].0 == name && forall|k: int|
                0 <= k < i ==> #[trigger] headers[k].0 != name;
        Some(headers[i].1)
    } else {
        None
    }
}

impl Request {
    pub fn new(headers: Vec<(String, String)>) -> (r: Request)
        ensures
            r.headers@ == headers@,
    {
        Request { headers }
    }

    /// The value of the first header named `name`.
    pub fn header(&self, name: &str) -> (r: Option<&str>)
        ensures
            match r {
                Some(v) => header_spec(self@, name@) == Some(v@),
                None => header_spec(self@, name@).is_none(),
            },
    {
        let wanted = name.to_owned();
        let mut i: usize = 0;
        while i < self.headers.len()
            invariant
                i <= self.headers@.len(),
                wanted@ == name@,
                self@.len() == self.headers@.len(),
                forall|k: int| 0 <= k < i ==> #[trigger] self@[k].0 != name@,
            decreases self.headers@.len() - i,
        {
            if self.headers[i].0 == wanted {
                let ghost hs = self@;
                assert(0 <= i < hs.len() && hs[i as int].0 == name@ && forall|k: int|
                    0 <= k < i ==> #[trigger] hs[k].0 != name@);
                let ghost j = choose|j: int|
                    0 <= j < hs.len() && #[trigger] hs[j].0 == name@ && forall|k: int|
                        0 <= k < j ==> #[trigger] hs[k].0 != name@;
                assert(j == i as int) by {
                    if j < i {
                        assert(hs[j].0 != name@);
                    } else if j > i {
                        assert(hs[i as int].0 != name@);
                    }
                }
                return Some(self.headers[i].1.as_str());
            }
            i = i + 1;
        }
        None
    }
}

} // verus!
