//! The method registry: route paths built deterministically from static
//! identifiers, a one-time registration step that refuses duplicate paths,
//! and the verb policy — idempotent methods answer GET and POST,
//! non-idempotent ones POST only.

use vstd::prelude::*;
use vstd::string::StringExecFns;

use crate::text::{push_char, str_eq};
use crate::{Code, ConnectError, Method};

verus! {

broadcast use vstd::string::group_string_axioms;

/// ASCII uppercase of one character; anything outside `a-z` is untouched.
pub open spec fn spec_upper_char(c: char) -> char {
    if 'a' <= c && c <= 'z' {
        ((c as u8) - 0x20) as char
    } else {
        c
    }
}

/// PascalCase of the rest of a snake_case name: underscores are dropped
/// and the first character after each boundary is uppercased.
pub open spec fn spec_pascal_rec(s: Seq<char>, boundary: bool) -> Seq<char>
    decreases s.len(),
{
    if s.len() == 0 {
        Seq::empty()
    } else if s[0] == '_' {
        spec_pascal_rec(s.skip(1), true)
    } else if boundary {
        seq![spec_upper_char(s[0])] + spec_pascal_rec(s.skip(1), false)
    } else {
        seq![s[0]] + spec_pascal_rec(s.skip(1), false)
    }
}

/// The PascalCase form of a snake_case name.
pub open spec fn spec_pascal_case(s: Seq<char>) -> Seq<char> {
    spec_pascal_rec(s, true)
}

/// Converts a snake_case name to PascalCase.
pub fn to_pascal_case(s: &str) -> (r: String)
    ensures
        r@ == spec_pascal_case(s@),
{
    let n = s.unicode_len();
    let mut out = String::new();
    let mut boundary = true;
    let mut i: usize = 0;
    proof {
        assert(s@.skip(0) =~= s@);
    }
    while i < n
        invariant
            i <= n,
            n == s@.len(),
            spec_pascal_case(s@) == out@ + spec_pascal_rec(s@.skip(i as int), boundary),
        decreases n - i,
    {
        let ghost rem = s@.skip(i as int);
        assert(rem[0] == s@[i as int]);
        proof {
            assert(rem.skip(1) =~= s@.skip(i + 1));
        }
        let c = s.get_char(i);
        if c == '_' {
            boundary = true;
        } else {
            let u: char = if boundary {
                if 'a' <= c && c <= 'z' {
                    ((c as u8) - 0x20) as char
                } else {
                    c
                }
            } else {
                c
            };
            assert(u == if boundary {
                spec_upper_char(rem[0])
            } else {
                rem[0]
            });
            let ghost prev = out@;
            push_char(&mut out, u);
            proof {
                assert(prev.push(u) + spec_pascal_rec(s@.skip(i + 1), false) =~= prev + (seq![u]
                    + spec_pascal_rec(s@.skip(i + 1), false)));
            }
            boundary = false;
        }
        i += 1;
    }
    proof {
        assert(s@.skip(n as int) =~= Seq::<char>::empty());
        assert(spec_pascal_rec(Seq::<char>::empty(), boundary) =~= Seq::<char>::empty());
        assert(out@ + Seq::<char>::empty() =~= out@);
    }
    out
}

/// One method as declared at registration time: static identifiers and the
/// idempotency flag. Built once, before serving starts, never mutated.
pub struct MethodDescriptor {
    pub service_package: String,
    pub version: String,
    pub service_name: String,
    pub method_name: String,
    pub idempotent: bool,
}

/// Mathematical model of a [`MethodDescriptor`].
pub struct MethodDescriptorModel {
    pub service_package: Seq<char>,
    pub version: Seq<char>,
    pub service_name: Seq<char>,
    pub method_name: Seq<char>,
    pub idempotent: bool,
}

impl View for MethodDescriptor {
    type V = MethodDescriptorModel;

    open spec fn view(&self) -> MethodDescriptorModel {
        MethodDescriptorModel {
            service_package: self.service_package@,
            version: self.version@,
            service_name: self.service_name@,
            method_name: self.method_name@,
            idempotent: self.idempotent,
        }
    }
}

/// The route path of a method:
/// `/{servicePackage}.{version}.{ServiceName}/{MethodName}`, the method
/// name in PascalCase. A function of the static identifiers alone.
pub open spec fn spec_method_path(d: MethodDescriptorModel) -> Seq<char> {
    "/"@ + d.service_package + "."@ + d.version + "."@ + d.service_name + "/"@
        + spec_pascal_case(d.method_name)
}

/// Builds the route path of a method.
pub fn build_method_path(d: &MethodDescriptor) -> (p: String)
    ensures
        p@ == spec_method_path(d@),
{
    let mut p = String::new();
    p.append("/");
    p.append(d.service_package.as_str());
    p.append(".");
    p.append(d.version.as_str());
    p.append(".");
    p.append(d.service_name.as_str());
    p.append("/");
    let pm = to_pascal_case(d.method_name.as_str());
    p.append(pm.as_str());
    assert(p@ =~= spec_method_path(d@));
    p
}

/// One entry of the route table.
pub struct RouteEntry {
    pub path: String,
    pub idempotent: bool,
    pub descriptor: MethodDescriptor,
}

/// Mathematical model of a [`RouteEntry`].
pub struct RouteEntryModel {
    pub path: Seq<char>,
    pub idempotent: bool,
    pub descriptor: MethodDescriptorModel,
}

impl View for RouteEntry {
    type V = RouteEntryModel;

    open spec fn view(&self) -> RouteEntryModel {
        RouteEntryModel { path: self.path@, idempotent: self.idempotent, descriptor: self.descriptor@ }
    }
}

/// No two entries share a path.
pub open spec fn spec_paths_distinct(rs: Seq<RouteEntryModel>) -> bool {
    forall|i: int, j: int| 0 <= i < j < rs.len() ==> rs[i].path != rs[j].path
}

/// Some entry has this path.
pub open spec fn spec_has_path(rs: Seq<RouteEntryModel>, path: Seq<char>) -> bool {
    exists|i: int| 0 <= i < rs.len() && rs[i].path == path
}

/// The position of the first entry with this path, or `rs.len()` when no
/// entry has it.
pub open spec fn spec_route_index(rs: Seq<RouteEntryModel>, path: Seq<char>) -> nat
    decreases rs.len(),
{
    if rs.len() == 0 {
        0
    } else if rs[0].path == path {
        0
    } else {
        1 + spec_route_index(rs.skip(1), path)
    }
}

/// What [`spec_route_index`] finds.
pub proof fn lemma_route_index(rs: Seq<RouteEntryModel>, path: Seq<char>)
    ensures
        spec_route_index(rs, path) <= rs.len(),
        spec_route_index(rs, path) < rs.len() ==> rs[spec_route_index(rs, path) as int].path
            == path,
        forall|j: int| 0 <= j < spec_route_index(rs, path) ==> rs[j].path != path,
        (spec_route_index(rs, path) < rs.len()) == spec_has_path(rs, path),
    decreases rs.len(),
{
    if rs.len() > 0 && rs[0].path != path {
        lemma_route_index(rs.skip(1), path);
        assert forall|j: int| 0 <= j < spec_route_index(rs, path) implies rs[j].path != path by {
            if j > 0 {
                assert(rs.skip(1)[j - 1] == rs[j]);
            }
        }
        if spec_has_path(rs, path) {
            let w = choose|i: int| 0 <= i < rs.len() && rs[i].path == path;
            assert(rs.skip(1)[w - 1] == rs[w]);
            assert(spec_has_path(rs.skip(1), path));
        }
        if spec_has_path(rs.skip(1), path) {
            let w = choose|i: int| 0 <= i < rs.skip(1).len() && rs.skip(1)[i].path == path;
            assert(rs.skip(1)[w] == rs[w + 1]);
            assert(spec_has_path(rs, path));
        }
    }
}

/// The routing decision for a path and a verb: the matched route when the
/// verb is admitted, `InvalidArgument` when the path is matched but the
/// verb is not (GET on a non-idempotent method), `NotFound` when no route
/// has the path.
pub open spec fn spec_route_decision(
    rs: Seq<RouteEntryModel>,
    path: Seq<char>,
    verb: Method,
) -> Result<int, Code> {
    let i = spec_route_index(rs, path);
    if i < rs.len() {
        if verb == Method::Post || rs[i as int].idempotent {
            Ok(i as int)
        } else {
            Err(Code::InvalidArgument)
        }
    } else {
        Err(Code::NotFound)
    }
}

/// For a registered path, GET and POST decide alike when the method is
/// idempotent; when it is not, POST is admitted and GET is refused as
/// `InvalidArgument` — never as a missing route.
pub proof fn lemma_verb_policy(rs: Seq<RouteEntryModel>, path: Seq<char>)
    requires
        spec_has_path(rs, path),
    ensures
        rs[spec_route_index(rs, path) as int].idempotent ==> spec_route_decision(rs, path, Method::Get)
            == spec_route_decision(rs, path, Method::Post),
        spec_route_decision(rs, path, Method::Post) == Ok::<int, Code>(spec_route_index(rs, path) as int),
        !rs[spec_route_index(rs, path) as int].idempotent ==> spec_route_decision(rs, path, Method::Get)
            == Err::<int, Code>(Code::InvalidArgument),
{
    lemma_route_index(rs, path);
}

/// The immutable route table: built once by registration, read-only while
/// serving.
pub struct MethodRegistry {
    routes: Vec<RouteEntry>,
}

impl View for MethodRegistry {
    type V = Seq<RouteEntryModel>;

    closed spec fn view(&self) -> Seq<RouteEntryModel> {
        self.routes@.map_values(|r: RouteEntry| r@)
    }
}

impl MethodRegistry {
    /// The registry keeps its paths distinct.
    pub closed spec fn wf(&self) -> bool {
        spec_paths_distinct(self@)
    }

    /// An empty registry.
    pub fn new() -> (r: MethodRegistry)
        ensures
            r@ == Seq::<RouteEntryModel>::empty(),
            r.wf(),
    {
        let r = MethodRegistry { routes: Vec::new() };
        assert(r@ =~= Seq::<RouteEntryModel>::empty());
        r
    }

    /// Registers a method: builds its path from the descriptor and appends
    /// the route — unless the path is already registered, in which case it
    /// fails with `AlreadyExists` and leaves the table unchanged.
    pub fn register(&mut self, descriptor: MethodDescriptor) -> (r: Result<(), ConnectError>)
        requires
            old(self).wf(),
        ensures
            final(self).wf(),
            if spec_has_path(old(self)@, spec_method_path(descriptor@)) {
                r matches Err(e) && e.code == Code::AlreadyExists && final(self)@ == old(self)@
            } else {
                (r matches Ok(u) && final(self)@ == old(self)@.push(
                    RouteEntryModel {
                        path: spec_method_path(descriptor@),
                        idempotent: descriptor@.idempotent,
                        descriptor: descriptor@,
                    },
                ))
            },
    {
        let path = build_method_path(&descriptor);
        let n = self.routes.len();
        assert(self@.len() == n);
        let mut i: usize = 0;
        while i < n
            invariant
                i <= n,
                n == self@.len(),
                *self == *old(self),
                old(self).wf(),
                self@ == self.routes@.map_values(|r: RouteEntry| r@),
                path@ == spec_method_path(descriptor@),
                forall|j: int| 0 <= j < i ==> self@[j].path != path@,
            decreases n - i,
        {
            assert(self@[i as int] == self.routes@[i as int]@);
            if str_eq(self.routes[i].path.as_str(), path.as_str()) {
                assert(spec_has_path(self@, spec_method_path(descriptor@)));
                return Err(ConnectError::new(Code::AlreadyExists, "path already registered"));
            }
            i += 1;
        }
        assert(!spec_has_path(self@, spec_method_path(descriptor@)));
        let ghost prev = self@;
        let idempotent = descriptor.idempotent;
        let entry = RouteEntry { path, idempotent, descriptor };
        let ghost entry_model = entry@;
        self.routes.push(entry);
        proof {
            assert(self@ =~= prev.push(entry_model));
            assert(entry_model.path == spec_method_path(descriptor@));
            assert forall|a: int, b: int| 0 <= a < b < self@.len() implies self@[a].path
                != self@[b].path by {
                if b < prev.len() {
                    assert(self@[a] == prev[a] && self@[b] == prev[b]);
                    assert(prev[a].path != prev[b].path);
                } else {
                    assert(self@[b] == entry_model);
                    assert(self@[a] == prev[a]);
                    if prev[a].path == entry_model.path {
                        assert(spec_has_path(prev, entry_model.path));
                    }
                }
            }
            assert(spec_paths_distinct(self@));
        }
        Ok(())
    }

    /// Finds the route for a path and a verb, deciding exactly as
    /// [`spec_route_decision`] does.
    pub fn find_route(&self, path: &str, verb: Method) -> (r: Result<usize, ConnectError>)
        ensures
            match spec_route_decision(self@, path@, verb) {
                Ok(i) => r matches Ok(j) && j as int == i,
                Err(c) => r matches Err(e) && e.code == c,
            },
    {
        let n = self.routes.len();
        assert(self@.len() == n);
        let mut i: usize = 0;
        proof {
            assert(self@.skip(0) =~= self@);
        }
        while i < n
            invariant
                i <= n,
                n == self@.len(),
                self@ == self.routes@.map_values(|r: RouteEntry| r@),
                spec_route_index(self@, path@) == i + spec_route_index(
                    self@.skip(i as int),
                    path@,
                ),
            decreases n - i,
        {
            let ghost rem = self@.skip(i as int);
            assert(rem[0] == self@[i as int]);
            assert(self@[i as int] == self.routes@[i as int]@);
            if str_eq(self.routes[i].path.as_str(), path) {
                assert(spec_route_index(rem, path@) == 0);
                assert(spec_route_index(self@, path@) == i);
                if verb == Method::Post || self.routes[i].idempotent {
                    return Ok(i);
                } else {
                    return Err(ConnectError::invalid_argument("method does not accept this verb"));
                }
            }
            proof {
                assert(rem.skip(1) =~= self@.skip(i + 1));
                assert(spec_route_index(rem, path@) == 1 + spec_route_index(
                    self@.skip(i + 1),
                    path@,
                ));
            }
            i += 1;
        }
        proof {
            assert(self@.skip(n as int) =~= Seq::<RouteEntryModel>::empty());
            assert(spec_route_index(Seq::<RouteEntryModel>::empty(), path@) == 0);
        }
        Err(ConnectError::not_found("no route for path"))
    }

    /// The number of registered routes.
    pub fn len(&self) -> (n: usize)
        ensures
            n == self@.len(),
    {
        self.routes.len()
    }

    /// The entry at a position.
    pub fn route_at(&self, i: usize) -> (r: &RouteEntry)
        requires
            i < self@.len(),
        ensures
            r@ == self@[i as int],
    {
        assert(self@[i as int] == self.routes@[i as int]@);
        &self.routes[i]
    }
}

} // verus!
