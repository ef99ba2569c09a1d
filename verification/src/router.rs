//! Pattern router: `{name}` variables with a single stop character, literal
//! text matched verbatim, first registered match wins.
use vstd::prelude::*;

use crate::text::{spec_find_char_from, find_char_from, lemma_find_char_from, str_matches_at};

verus! {

/// Ghost image of one compiled pattern segment.
pub enum PathPartV {
    Lit(Seq<char>),
    Var(Seq<char>, char),
}

/// One compiled pattern segment: literal text, or a named variable together
/// with the character that ends its capture (`'\0'` when the pattern ends).
pub enum PathPart {
    Lit(String),
    Var(String, char),
}

impl View for PathPart {
    type V = PathPartV;

    open spec fn view(&self) -> PathPartV {
        match self {
            PathPart::Lit(s) => PathPartV::Lit(s@),
            PathPart::Var(name, stop) => PathPartV::Var(name@, *stop),
        }
    }
}

/// Compilation of the pattern suffix that starts at `i`.
///
/// A `{` opens a variable name running to the matching `}`; the character
/// after the `}` becomes the variable's stop character and is consumed, and a
/// variable that ends the pattern gets the `'\0'` sentinel. Any other text
/// accumulates into maximal literal segments. An unclosed `{name` keeps the
/// accumulated name as literal text.
pub open spec fn spec_compile_at(p: Seq<char>, i: int) -> Seq<PathPartV>
    recommends
        0 <= i <= p.len(),
    decreases p.len() - i,
        via spec_compile_at_dec
{
    if i < 0 || i >= p.len() {
        Seq::empty()
    } else if p[i] == '{' {
        let close = spec_find_char_from(p, i + 1, '}');
        if close >= p.len() {
            if i + 1 < p.len() {
                seq![PathPartV::Lit(p.subrange(i + 1, p.len() as int))]
            } else {
                Seq::empty()
            }
        } else if close + 1 < p.len() {
            seq![PathPartV::Var(p.subrange(i + 1, close), p[close + 1])] + spec_compile_at(
                p,
                close + 2,
            )
        } else {
            seq![PathPartV::Var(p.subrange(i + 1, close), '\0')]
        }
    } else {
        let open = spec_find_char_from(p, i, '{');
        seq![PathPartV::Lit(p.subrange(i, open))] + spec_compile_at(p, open)
    }
}

#[via_fn]
proof fn spec_compile_at_dec(p: Seq<char>, i: int) {
    if 0 <= i && i < p.len() {
        if p[i] == '{' {
            lemma_find_char_from(p, i + 1, '}');
        } else {
            lemma_find_char_from(p, i, '{');
        }
    }
}

/// The compiled form of a whole pattern.
pub open spec fn spec_compile(p: Seq<char>) -> Seq<PathPartV> {
    spec_compile_at(p, 0)
}

/// Matching of the segments from `k` on against the path from offset `i` on.
///
/// A literal must equal the path text at the offset. A variable captures up
/// to the first occurrence of its stop character (or the end of the path) and
/// the offset moves past the capture and the stop character. Path text left
/// over after the last segment means no match.
pub open spec fn spec_match_at(
    parts: Seq<PathPartV>,
    k: int,
    path: Seq<char>,
    i: int,
) -> Option<Seq<(Seq<char>, Seq<char>)>>
    recommends
        0 <= k <= parts.len(),
        0 <= i <= path.len(),
    decreases parts.len() - k,
{
    if k < 0 || k >= parts.len() {
        if i == path.len() {
            Some(Seq::empty())
        } else {
            None
        }
    } else {
        match parts[k] {
            PathPartV::Lit(lit) => {
                if i + lit.len() <= path.len() && path.subrange(i, i + lit.len()) == lit {
                    spec_match_at(parts, k + 1, path, i + lit.len())
                } else {
                    None
                }
            },
            PathPartV::Var(name, stop) => {
                let j = spec_find_char_from(path, i, stop);
                let cap = path.subrange(i, j);
                let next = if j < path.len() {
                    j + 1
                } else {
                    j
                };
                match spec_match_at(parts, k + 1, path, next) {
                    Some(rest) => Some(seq![(name, cap)] + rest),
                    None => None,
                }
            },
        }
    }
}

/// What matching a compiled pattern against a whole path yields: the captured
/// variables in pattern order, or nothing.
pub open spec fn spec_match(
    parts: Seq<PathPartV>,
    path: Seq<char>,
) -> Option<Seq<(Seq<char>, Seq<char>)>> {
    spec_match_at(parts, 0, path, 0)
}

pub open spec fn params_view(params: Seq<(String, String)>) -> Seq<(Seq<char>, Seq<char>)> {
    params.map_values(|p: (String, String)| (p.0@, p.1@))
}

/// A compiled path pattern.
pub struct PathMatcher(pub Vec<PathPart>);

impl View for PathMatcher {
    type V = Seq<PathPartV>;

    open spec fn view(&self) -> Seq<PathPartV> {
        self.0@.map_values(|p: PathPart| p@)
    }
}

/// Does the pattern suffix starting at `i` compile to `r`?
fn compile_at(p: &str, i: usize) -> (r: Vec<PathPart>)
    requires
        i <= p@.len(),
    ensures
        r@.map_values(|q: PathPart| q@) == spec_compile_at(p@, i as int),
    decreases p@.len() - i,
{
    let len = p.unicode_len();
    if i == len {
        let r: Vec<PathPart> = Vec::new();
        assert(r@.map_values(|q: PathPart| q@) =~= spec_compile_at(p@, i as int));
        return r;
    }
    if p.get_char(i) == '{' {
        let close = find_char_from(p, i + 1, '}');
        if close == len {
            let mut r: Vec<PathPart> = Vec::new();
            if i + 1 < len {
                r.push(PathPart::Lit(p.substring_char(i + 1, len).to_owned()));
            }
            assert(r@.map_values(|q: PathPart| q@) =~= spec_compile_at(p@, i as int));
            r
        } else if close + 1 < len {
            let name = p.substring_char(i + 1, close).to_owned();
            let stop = p.get_char(close + 1);
            let mut r = compile_at(p, close + 2);
            r.insert(0, PathPart::Var(name, stop));
            assert(r@.map_values(|q: PathPart| q@) =~= spec_compile_at(p@, i as int));
            r
        } else {
            let name = p.substring_char(i + 1, close).to_owned();
            let mut r: Vec<PathPart> = Vec::new();
            r.push(PathPart::Var(name, '\0'));
            assert(r@.map_values(|q: PathPart| q@) =~= spec_compile_at(p@, i as int));
            r
        }
    } else {
        let open = find_char_from(p, i, '{');
        let lit = p.substring_char(i, open).to_owned();
        let mut r = compile_at(p, open);
        r.insert(0, PathPart::Lit(lit));
        assert(r@.map_values(|q: PathPart| q@) =~= spec_compile_at(p@, i as int));
        r
    }
}

/// Walks the segments from `k` against the path from `i`, appending captures.
fn match_at(
    parts: &Vec<PathPart>,
    k: usize,
    path: &str,
    i: usize,
    params: &mut Vec<(String, String)>,
) -> (r: bool)
    requires
        k <= parts@.len(),
        i <= path@.len(),
    ensures
        r == (spec_match_at(parts@.map_values(|q: PathPart| q@), k as int, path@, i as int)
            is Some),
        r ==> params_view(final(params)@) == params_view(old(params)@) + spec_match_at(
            parts@.map_values(|q: PathPart| q@),
            k as int,
            path@,
            i as int,
        ).unwrap(),
    decreases parts@.len() - k,
{
    let ghost pv = parts@.map_values(|q: PathPart| q@);
    let len = path.unicode_len();
    if k == parts.len() {
        if i == len {
            assert(params_view(params@) =~= params_view(params@) + spec_match_at(
                pv,
                k as int,
                path@,
                i as int,
            ).unwrap());
            true
        } else {
            false
        }
    } else {
        match &parts[k] {
            PathPart::Lit(lit) => {
                if str_matches_at(path, i, lit.as_str()) {
                    match_at(parts, k + 1, path, i + lit.as_str().unicode_len(), params)
                } else {
                    false
                }
            },
            PathPart::Var(name, stop) => {
                let j = find_char_from(path, i, *stop);
                let cap = path.substring_char(i, j).to_owned();
                let next = if j < len {
                    j + 1
                } else {
                    j
                };
                params.push((name.clone(), cap));
                let ghost mid = params@;
                let r = match_at(parts, k + 1, path, next, params);
                proof {
                    if r {
                        let full = spec_match_at(pv, k as int, path@, i as int);
                        let rest = spec_match_at(pv, k + 1, path@, next as int);
                        assert(params_view(mid) =~= params_view(old(params)@) + seq![
                            (name@, path@.subrange(i as int, j as int)),
                        ]);
                        assert(full.unwrap() =~= seq![
                            (name@, path@.subrange(i as int, j as int)),
                        ] + rest.unwrap());
                        assert(params_view(final(params)@) =~= params_view(old(params)@)
                            + full.unwrap());
                    }
                }
                r
            },
        }
    }
}

impl PathMatcher {
    /// Compiles a pattern.
    pub fn from_pattern(pattern: String) -> (r: PathMatcher)
        ensures
            r@ == spec_compile(pattern@),
    {
        PathMatcher(compile_at(pattern.as_str(), 0))
    }

    /// Matches a whole path, yielding the captured variables in pattern
    /// order, or nothing.
    pub fn exec(&self, path: &str) -> (r: Option<Vec<(String, String)>>)
        ensures
            r is Some <==> spec_match(self@, path@) is Some,
            r is Some ==> params_view(r.unwrap()@) == spec_match(self@, path@).unwrap(),
    {
        let mut params: Vec<(String, String)> = Vec::new();
        if match_at(&self.0, 0, path, 0, &mut params) {
            assert(params_view(params@) =~= spec_match(self@, path@).unwrap());
            Some(params)
        } else {
            None
        }
    }
}

/// One value per variable from segment `k` on, none containing the stop
/// character of its own variable.
pub open spec fn spec_vals_ok(parts: Seq<PathPartV>, k: int, vals: Seq<Seq<char>>) -> bool
    decreases parts.len() - k,
{
    if k < 0 || k >= parts.len() {
        vals.len() == 0
    } else {
        match parts[k] {
            PathPartV::Lit(_) => spec_vals_ok(parts, k + 1, vals),
            PathPartV::Var(_, stop) => vals.len() > 0 && !vals[0].contains(stop) && spec_vals_ok(
                parts,
                k + 1,
                vals.drop_first(),
            ),
        }
    }
}

/// The path the segments from `k` on designate when each variable takes its
/// value: literals verbatim, a value followed by its stop character, the
/// last segment's value bare.
pub open spec fn spec_build_path(parts: Seq<PathPartV>, k: int, vals: Seq<Seq<char>>) -> Seq<char>
    decreases parts.len() - k,
{
    if k < 0 || k >= parts.len() {
        Seq::empty()
    } else {
        match parts[k] {
            PathPartV::Lit(s) => s + spec_build_path(parts, k + 1, vals),
            PathPartV::Var(_, stop) => {
                let v = if vals.len() > 0 {
                    vals[0]
                } else {
                    Seq::empty()
                };
                if k + 1 < parts.len() {
                    v + seq![stop] + spec_build_path(parts, k + 1, vals.drop_first())
                } else {
                    v
                }
            },
        }
    }
}

/// The parameters such a path designates: each variable's name with its
/// value, in pattern order.
pub open spec fn spec_designated_params(
    parts: Seq<PathPartV>,
    k: int,
    vals: Seq<Seq<char>>,
) -> Seq<(Seq<char>, Seq<char>)>
    decreases parts.len() - k,
{
    if k < 0 || k >= parts.len() {
        Seq::empty()
    } else {
        match parts[k] {
            PathPartV::Lit(_) => spec_designated_params(parts, k + 1, vals),
            PathPartV::Var(name, _) => {
                let v = if vals.len() > 0 {
                    vals[0]
                } else {
                    Seq::empty()
                };
                seq![(name, v)] + spec_designated_params(parts, k + 1, vals.drop_first())
            },
        }
    }
}

proof fn lemma_match_built_at(
    parts: Seq<PathPartV>,
    k: int,
    vals: Seq<Seq<char>>,
    path: Seq<char>,
    i: int,
)
    requires
        0 <= k <= parts.len(),
        0 <= i <= path.len(),
        spec_vals_ok(parts, k, vals),
        path.skip(i) == spec_build_path(parts, k, vals),
    ensures
        spec_match_at(parts, k, path, i) == Some(spec_designated_params(parts, k, vals)),
    decreases parts.len() - k,
{
    if k == parts.len() {
        assert(path.skip(i).len() == 0);
        assert(i == path.len());
    } else {
        match parts[k] {
            PathPartV::Lit(s) => {
                let rest = spec_build_path(parts, k + 1, vals);
                assert(path.skip(i) == s + rest);
                assert(i + s.len() <= path.len());
                assert(path.subrange(i, i + s.len()) =~= s) by {
                    assert(forall|j: int|
                        0 <= j < s.len() ==> path.subrange(i, i + s.len())[j] == path.skip(i)[j]);
                }
                assert(path.skip(i + s.len()) =~= rest) by {
                    assert(forall|j: int|
                        0 <= j < rest.len() ==> #[trigger] path.skip(i + s.len())[j] == path.skip(
                            i,
                        )[s.len() + j]);
                }
                lemma_match_built_at(parts, k + 1, vals, path, i + s.len());
            },
            PathPartV::Var(name, stop) => {
                let v = vals[0];
                lemma_find_char_from(path, i, stop);
                let f = spec_find_char_from(path, i, stop);
                assert(forall|j: int| 0 <= j < v.len() ==> !(v[j] == stop)) by {
                    assert(forall|j: int| 0 <= j < v.len() ==> v.contains(v[j]));
                }
                if k + 1 < parts.len() {
                    let rest = spec_build_path(parts, k + 1, vals.drop_first());
                    assert(path.skip(i) == v + seq![stop] + rest);
                    assert(forall|j: int|
                        0 <= j < v.len() ==> path[i + j] == path.skip(i)[j] && path.skip(i)[j]
                            == v[j]);
                    assert(path[i + v.len()] == path.skip(i)[v.len() as int]);
                    assert(path[i + v.len()] == stop);
                    assert(f == i + v.len()) by {
                        if f < i + v.len() {
                            assert(path[f] == v[f - i]);
                        }
                        if f > i + v.len() {
                            assert(path[i + v.len()] != stop);
                        }
                    }
                    let next = f + 1;
                    assert(path.subrange(i, f) =~= v);
                    assert(path.skip(next) =~= rest) by {
                        assert(forall|j: int|
                            0 <= j < rest.len() ==> #[trigger] path.skip(next)[j] == path.skip(
                                i,
                            )[v.len() + 1 + j]);
                    }
                    lemma_match_built_at(parts, k + 1, vals.drop_first(), path, next);
                    assert(spec_match_at(parts, k, path, i) =~= Some(
                        seq![(name, v)] + spec_designated_params(parts, k + 1, vals.drop_first()),
                    ));
                } else {
                    assert(path.skip(i) == v);
                    assert(forall|j: int|
                        0 <= j < v.len() ==> path[i + j] == path.skip(i)[j] && path.skip(i)[j]
                            == v[j]);
                    assert(path.len() == i + v.len());
                    assert(f == path.len()) by {
                        if f < path.len() {
                            assert(path[f] == v[f - i]);
                        }
                    }
                    assert(path.subrange(i, f) =~= v);
                    assert(path.skip(f) =~= Seq::<char>::empty());
                    lemma_match_built_at(parts, k + 1, vals.drop_first(), path, f);
                    assert(spec_match_at(parts, k, path, i) =~= Some(
                        seq![(name, v)] + spec_designated_params(parts, k + 1, vals.drop_first()),
                    ));
                }
            },
        }
    }
}

/// Law: a path built from a compiled pattern by filling each variable with a
/// value free of that variable's stop character satisfies the pattern, and
/// matching extracts exactly those values, under their names, in order.
pub proof fn lemma_match_designates_values(parts: Seq<PathPartV>, vals: Seq<Seq<char>>)
    requires
        spec_vals_ok(parts, 0, vals),
    ensures
        spec_match(parts, spec_build_path(parts, 0, vals)) == Some(
            spec_designated_params(parts, 0, vals),
        ),
{
    let path = spec_build_path(parts, 0, vals);
    assert(path.skip(0) =~= path);
    lemma_match_built_at(parts, 0, vals, path, 0);
}

/// A registered route: compiled matcher, handler callable, and the module
/// that registered it, for diagnostics.
pub struct Route<H> {
    pub matcher: PathMatcher,
    pub call: H,
    pub origin_module: Option<String>,
}

impl<H> Route<H> {
    /// A route for the pattern, not yet tagged with a module.
    pub fn new(pattern: String, action: H) -> (r: Route<H>)
        ensures
            r.matcher@ == spec_compile(pattern@),
            r.call == action,
            r.origin_module is None,
    {
        Route { matcher: PathMatcher::from_pattern(pattern), call: action, origin_module: None }
    }
}

/// Routes in registration order, plus the module tag applied to new ones.
pub struct Router<H> {
    pub routes: Vec<Route<H>>,
    pub origin_module: Option<String>,
}

impl<H> Router<H> {
    /// A router with no routes.
    pub fn empty() -> (r: Router<H>)
        ensures
            r.routes@.len() == 0,
            r.current_module() is None,
    {
        Router { routes: Vec::new(), origin_module: None }
    }

    /// The module tag new routes will carry.
    pub open spec fn current_module(&self) -> Option<String> {
        self.origin_module
    }

    /// Appends a route for the pattern; the route is tagged with the current
    /// module, and registration order decides match precedence.
    pub fn register(&mut self, pattern: String, action: H)
        ensures
            final(self).routes@.len() == old(self).routes@.len() + 1,
            final(self).routes@.subrange(0, old(self).routes@.len() as int) == old(
                self,
            ).routes@,
            final(self).routes@.last().matcher@ == spec_compile(pattern@),
            final(self).routes@.last().call == action,
            final(self).routes@.last().origin_module == old(self).current_module(),
            final(self).current_module() == old(self).current_module(),
    {
        let origin = match &self.origin_module {
            Some(name) => Some(name.clone()),
            None => None,
        };
        let route = Route {
            matcher: PathMatcher::from_pattern(pattern),
            call: action,
            origin_module: origin,
        };
        self.routes.push(route);
        assert(final(self).routes@.subrange(0, old(self).routes@.len() as int) =~= old(
            self,
        ).routes@);
    }

    /// Sets or clears the module tag for subsequent registrations.
    pub fn set_origin_module(&mut self, name: Option<String>)
        ensures
            final(self).routes == old(self).routes,
            final(self).current_module() == name,
    {
        self.origin_module = name;
    }

    /// The first route, in registration order, whose pattern matches the
    /// path, with its captured variables.
    pub fn match_path(&self, path: &str) -> (r: Option<(usize, Vec<(String, String)>)>)
        ensures
            match r {
                Some((i, params)) => {
                    &&& i < self.routes@.len()
                    &&& spec_match(self.routes@[i as int].matcher@, path@) is Some
                    &&& params_view(params@) == spec_match(
                        self.routes@[i as int].matcher@,
                        path@,
                    ).unwrap()
                    &&& forall|j: int|
                        0 <= j < i ==> spec_match(self.routes@[j].matcher@, path@) is None
                },
                None => forall|j: int|
                    0 <= j < self.routes@.len() ==> spec_match(
                        self.routes@[j].matcher@,
                        path@,
                    ) is None,
            },
    {
        let n = self.routes.len();
        let mut i: usize = 0;
        while i < n
            invariant
                i <= n == self.routes@.len(),
                forall|j: int| 0 <= j < i ==> spec_match(self.routes@[j].matcher@, path@) is None,
            decreases n - i,
        {
            match self.routes[i].matcher.exec(path) {
                Some(params) => {
                    return Some((i, params));
                },
                None => {},
            }
            i = i + 1;
        }
        None
    }
}

} // verus!
