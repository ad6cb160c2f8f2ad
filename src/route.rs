//! The local route table: which registered route, if any, handles a
//! request. Patterns are `/`-separated segments, each a literal or a
//! named parameter written `{name}` that matches one non-empty segment.
//! The first registered route that matches wins.

use vstd::prelude::*;
use vstd::string::StrSliceExecFns;
use crate::message::Method;

verus! {

/// The `/`-separated segments of a path. `"/a/b"` gives `["", "a", "b"]`.
pub open spec fn segments(p: Seq<char>) -> Seq<Seq<char>>
    decreases p.len(),
{
    if p.len() == 0 {
        seq![Seq::<char>::empty()]
    } else {
        let prev = segments(p.drop_last());
        if p.last() == '/' {
            prev.push(Seq::<char>::empty())
        } else {
            prev.update(prev.len() - 1, prev.last().push(p.last()))
        }
    }
}

/// A pattern segment of the form `{name}`.
pub open spec fn is_param(s: Seq<char>) -> bool {
    s.len() >= 2 && s[0] == '{' && s[s.len() - 1] == '}'
}

pub open spec fn segment_matches(pat: Seq<char>, seg: Seq<char>) -> bool {
    if is_param(pat) {
        seg.len() > 0
    } else {
        pat == seg
    }
}

/// Whether `path` fits `pattern`: as many segments, each fitting.
pub open spec fn path_matches(pattern: Seq<char>, path: Seq<char>) -> bool {
    let a = segments(pattern);
    let b = segments(path);
    a.len() == b.len() && forall|i: int| 0 <= i < a.len() ==> segment_matches(#[trigger] a[i], b[i])
}

/// Splits a path into its `/`-separated segments.
pub fn split_segments(p: &str) -> (r: Vec<String>)
    ensures
        r@.map_values(|s: String| s@) == segments(p@),
{
    let n = p.unicode_len();
    let mut out: Vec<String> = Vec::new();
    let mut start: usize = 0;
    let mut i: usize = 0;
    assert(p@.subrange(0, 0) =~= Seq::<char>::empty());
    assert(out@.map_values(|s: String| s@).push(p@.subrange(0, 0)) =~= segments(p@.subrange(0, 0)));
    while i < n
        invariant
            n == p@.len(),
            start <= i <= n,
            out@.map_values(|s: String| s@).push(p@.subrange(start as int, i as int)) == segments(
                p@.subrange(0, i as int),
            ),
        decreases n - i,
    {
        let c = p.get_char(i);
        let ghost before = out@.map_values(|s: String| s@);
        assert(p@.subrange(0, i + 1).drop_last() =~= p@.subrange(0, i as int));
        assert(p@.subrange(0, i + 1).last() == c);
        if c == '/' {
            let ghost s0 = start;
            out.push(String::from_str(p.substring_char(start, i)));
            start = i + 1;
            assert(out@.map_values(|s: String| s@) =~= before.push(p@.subrange(s0 as int, i as int)));
            assert(p@.subrange(start as int, i + 1) =~= Seq::<char>::empty());
            assert(out@.map_values(|s: String| s@).push(p@.subrange(start as int, i + 1)) =~= segments(p@.subrange(0, i + 1)));
        } else {
            assert(p@.subrange(start as int, i + 1) =~= p@.subrange(start as int, i as int).push(c));
            assert(out@.map_values(|s: String| s@).push(p@.subrange(start as int, i + 1)) =~= segments(p@.subrange(0, i + 1)));
        }
        i = i + 1;
    }
    out.push(String::from_str(p.substring_char(start, n)));
    assert(p@.subrange(0, n as int) =~= p@);
    assert(out@.map_values(|s: String| s@) =~= segments(p@));
    out
}

/// Whether one pattern segment fits one path segment.
pub fn segment_fits(pat: &String, seg: &String) -> (r: bool)
    ensures
        r == segment_matches(pat@, seg@),
{
    let p = pat.as_str();
    let n = p.unicode_len();
    if n >= 2 && p.get_char(0) == '{' && p.get_char(n - 1) == '}' {
        seg.as_str().unicode_len() > 0
    } else {
        *pat == *seg
    }
}

/// Whether `path` fits `pattern`.
pub fn path_fits(pattern: &str, path: &str) -> (r: bool)
    ensures
        r == path_matches(pattern@, path@),
{
    let a = split_segments(pattern);
    let b = split_segments(path);
    proof {
        assert(a@.len() == segments(pattern@).len());
        assert(b@.len() == segments(path@).len());
    }
    if a.len() != b.len() {
        return false;
    }
    let mut i: usize = 0;
    while i < a.len()
        invariant
            a.len() == b.len(),
            a@.map_values(|s: String| s@) == segments(pattern@),
            b@.map_values(|s: String| s@) == segments(path@),
            i <= a.len(),
            forall|j: int| 0 <= j < i ==> segment_matches(#[trigger] segments(pattern@)[j], segments(path@)[j]),
        decreases a.len() - i,
    {
        assert(a@.map_values(|s: String| s@)[i as int] == a@[i as int]@);
        assert(b@.map_values(|s: String| s@)[i as int] == b@[i as int]@);
        if !segment_fits(&a[i], &b[i]) {
            return false;
        }
        i = i + 1;
    }
    true
}

/// One registered route: a method and a path pattern.
pub struct Route {
    pub method: Method,
    pub pattern: String,
}

/// Whether a route with this method and pattern handles a request.
pub open spec fn route_matches(route: (Method, Seq<char>), method: Method, path: Seq<char>) -> bool {
    route.0 == method && path_matches(route.1, path)
}

/// Routes in registration order.
pub struct RouteTable {
    routes: Vec<Route>,
}

impl View for RouteTable {
    type V = Seq<(Method, Seq<char>)>;

    closed spec fn view(&self) -> Seq<(Method, Seq<char>)> {
        self.routes@.map_values(|r: Route| (r.method, r.pattern@))
    }
}

impl RouteTable {
    pub fn new() -> (r: RouteTable)
        ensures
            r@ == Seq::<(Method, Seq<char>)>::empty(),
    {
        let r = RouteTable { routes: Vec::new() };
        assert(r@ =~= Seq::<(Method, Seq<char>)>::empty());
        r
    }

    /// Registers a route after all earlier ones. Returns its index.
    pub fn add(&mut self, method: Method, pattern: &str) -> (r: usize)
        ensures
            final(self)@ == old(self)@.push((method, pattern@)),
            r == old(self)@.len(),
    {
        let r = self.routes.len();
        self.routes.push(Route { method, pattern: String::from_str(pattern) });
        assert(self@ =~= old(self)@.push((method, pattern@)));
        r
    }

    pub fn len(&self) -> (r: usize)
        ensures
            r == self@.len(),
    {
        self.routes.len()
    }

    /// The index of the first registered route that handles a request with
    /// this method and path; `None` when none does.
    pub fn find(&self, method: Method, path: &str) -> (r: Option<usize>)
        ensures
            match r {
                Some(i) => i < self@.len() && route_matches(self@[i as int], method, path@)
                    && forall|j: int| 0 <= j < i ==> !route_matches(#[trigger] self@[j], method, path@),
                None => forall|j: int| 0 <= j < self@.len() ==> !route_matches(#[trigger] self@[j], method, path@),
            },
    {
        let mut i: usize = 0;
        while i < self.routes.len()
            invariant
                i <= self.routes.len(),
                forall|j: int| 0 <= j < i ==> !route_matches(#[trigger] self@[j], method, path@),
            decreases self.routes.len() - i,
        {
            let route = &self.routes[i];
            assert(self@[i as int] == (route.method, route.pattern@));
            if route.method == method && path_fits(route.pattern.as_str(), path) {
                return Some(i);
            }
            i = i + 1;
        }
        None
    }
}

} // verus!
