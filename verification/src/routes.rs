//! The route table: compiling the configuration into a dispatch structure
//! and resolving an inbound request path against it. Patterns are small
//! tagged segment lists compiled once; matching is segment-wise. The static
//! rule is a genuine fallback, consulted only when no pattern matches, and
//! identical literal route patterns are rejected when the table is built,
//! never silently overwritten.

use vstd::prelude::*;
use crate::config::{Config, FileServer, Proxy};
use crate::text::{
    digits_val, is_u32_numeral, parse_u32, spec_split, split_on, str_eq,
};

verus! {

/// One compiled piece of a route pattern.
pub enum Segment {
    /// Matches exactly this text.
    Literal { text: String },
    /// Matches any single path segment and binds it.
    Param { name: String },
    /// Matches a single path segment only when it is a decimal `u32`
    /// numeral; the typed age parameter of the greeting endpoint.
    IntParam { name: String },
}

/// Whether one compiled segment accepts one piece of a request path.
pub open spec fn seg_matches(seg: Segment, part: Seq<char>) -> bool {
    match seg {
        Segment::Literal { text } => part == text@,
        Segment::Param { name: _ } => true,
        Segment::IntParam { name: _ } => is_u32_numeral(part),
    }
}

/// Whether `seg` is the compiled form of the pattern piece `src`: a piece
/// opening with a colon becomes a parameter named by the rest, anything
/// else a literal.
pub open spec fn seg_compiled(src: Seq<char>, seg: Segment) -> bool {
    if src.len() > 0 && src[0] == ':' {
        seg matches Segment::Param { name } && name@ == src.skip(1)
    } else {
        seg matches Segment::Literal { text } && text@ == src
    }
}

/// A compiled route pattern.
pub struct Pattern {
    pub segments: Vec<Segment>,
}

/// Whether a pattern accepts a request path split into pieces: the same
/// number of pieces, each accepted by its segment.
pub open spec fn pattern_matches(p: Pattern, parts: Seq<Seq<char>>) -> bool {
    p.segments@.len() == parts.len() && forall|i: int|
        0 <= i < parts.len() ==> seg_matches(#[trigger] p.segments@[i], parts[i])
}

/// Whether `p` is the compiled form of the route pattern text `src`.
pub open spec fn pattern_compiled(p: Pattern, src: Seq<char>) -> bool {
    let pieces = spec_split(src, '/');
    p.segments@.len() == pieces.len() && forall|i: int|
        0 <= i < pieces.len() ==> seg_compiled(pieces[i], #[trigger] p.segments@[i])
}

/// Compiles a route pattern text: split on `/`, a colon-prefixed piece
/// becomes a parameter, anything else a literal.
pub fn parse_pattern(route: &str) -> (r: Pattern)
    ensures
        pattern_compiled(r, route@),
{
    let pieces = split_on(route, '/');
    let mut segments: Vec<Segment> = Vec::new();
    let mut j: usize = 0;
    while j < pieces.len()
        invariant
            pieces.deep_view() == spec_split(route@, '/'),
            j <= pieces.len(),
            segments@.len() == j,
            forall|i: int|
                0 <= i < j ==> seg_compiled(
                    spec_split(route@, '/')[i],
                    #[trigger] segments@[i],
                ),
        decreases pieces.len() - j,
    {
        let piece = &pieces[j];
        let piece_len = piece.as_str().unicode_len();
        if piece_len > 0 && piece.as_str().get_char(0) == ':' {
            let name = piece.as_str().substring_char(1, piece_len).to_owned();
            proof {
                assert(name@ =~= pieces.deep_view()[j as int].skip(1));
            }
            segments.push(Segment::Param { name });
        } else {
            segments.push(Segment::Literal { text: piece.clone() });
        }
        j = j + 1;
    }
    Pattern { segments }
}

/// The handler bound to a route pattern.
pub enum HandlerKind {
    /// The fixed parameterized greeting endpoint.
    DynamicGreeting,
    /// Reverse proxying to the captured upstream base URL, with the two
    /// diagnostic toggles captured at construction time.
    ProxyForward { target: String, log_requests: bool, log_responses: bool },
}

/// One named route: its literal pattern text, the compiled pattern, and the
/// handler it dispatches to.
pub struct RouteEntry {
    pub route: String,
    pub pattern: Pattern,
    pub handler: HandlerKind,
}

/// The dispatch table: the named routes in registration order, and the
/// optional static-file fallback, which is never a named route.
pub struct RouteTable {
    pub entries: Vec<RouteEntry>,
    pub fallback: Option<FileServer>,
}

/// Route-table construction error: a proxy rule claims a literal route
/// pattern that is already taken.
#[derive(Debug)]
pub enum BuildError {
    DuplicateRoute { route: String },
}

/// The first fixed greeting route: a single username segment.
pub open spec fn greet_route_1() -> Seq<char> {
    "/user/:username"@
}

/// The second fixed greeting route: username plus a typed age segment.
pub open spec fn greet_route_2() -> Seq<char> {
    "/user/:username/age/:age"@
}

/// The compiled shape of the first greeting route.
pub open spec fn greet_segs_1(segs: Seq<Segment>) -> bool {
    &&& segs.len() == 3
    &&& segs[0] matches Segment::Literal { text } && text@ == Seq::<char>::empty()
    &&& segs[1] matches Segment::Literal { text } && text@ == "user"@
    &&& segs[2] matches Segment::Param { name } && name@ == "username"@
}

/// The compiled shape of the second greeting route.
pub open spec fn greet_segs_2(segs: Seq<Segment>) -> bool {
    &&& segs.len() == 5
    &&& segs[0] matches Segment::Literal { text } && text@ == Seq::<char>::empty()
    &&& segs[1] matches Segment::Literal { text } && text@ == "user"@
    &&& segs[2] matches Segment::Param { name } && name@ == "username"@
    &&& segs[3] matches Segment::Literal { text } && text@ == "age"@
    &&& segs[4] matches Segment::IntParam { name } && name@ == "age"@
}

/// Every entry's pattern is coherent with its route text and handler: the
/// greeting entries carry the two fixed shapes, proxy entries the compiled
/// form of their configured pattern.
pub open spec fn entry_wf(e: RouteEntry) -> bool {
    match e.handler {
        HandlerKind::DynamicGreeting => (e.route@ == greet_route_1() && greet_segs_1(
            e.pattern.segments@,
        )) || (e.route@ == greet_route_2() && greet_segs_2(e.pattern.segments@)),
        HandlerKind::ProxyForward { target: _, log_requests: _, log_responses: _ } =>
            pattern_compiled(e.pattern, e.route@),
    }
}

impl RouteTable {
    /// Well-formedness: coherent entries with pairwise distinct literal
    /// route texts.
    pub open spec fn wf(self) -> bool {
        &&& forall|i: int|
            0 <= i < self.entries@.len() ==> entry_wf(#[trigger] self.entries@[i])
        &&& forall|i: int, j: int|
            0 <= i < j < self.entries@.len() ==> self.entries@[i].route@ != self.entries@[
                j
            ].route@
    }
}

/// The proxy rules of a configuration, in order; empty when none are given.
pub open spec fn config_proxies(c: Config) -> Seq<Proxy> {
    match c.proxies {
        Some(v) => v@,
        None => Seq::<Proxy>::empty(),
    }
}

/// Whether rule `k` claims a route already taken: one of the two fixed
/// greeting routes, or an earlier rule's route.
pub open spec fn collides_at(proxies: Seq<Proxy>, k: int) -> bool {
    ||| proxies[k].route@ == greet_route_1()
    ||| proxies[k].route@ == greet_route_2()
    ||| exists|j: int| 0 <= j < k && #[trigger] proxies[j].route@ == proxies[k].route@
}

/// All proxy routes are distinct from each other and from the two fixed
/// greeting routes.
pub open spec fn routes_ok(proxies: Seq<Proxy>) -> bool {
    forall|k: int| 0 <= k < proxies.len() ==> !#[trigger] collides_at(proxies, k)
}

/// How many entries forward to a proxy.
pub open spec fn count_proxy_entries(entries: Seq<RouteEntry>) -> int
    decreases entries.len(),
{
    if entries.len() == 0 {
        0
    } else {
        count_proxy_entries(entries.drop_last()) + if entries.last().handler is ProxyForward {
            1int
        } else {
            0int
        }
    }
}

/// How many entries dispatch to the greeting endpoint.
pub open spec fn count_greeting_entries(entries: Seq<RouteEntry>) -> int
    decreases entries.len(),
{
    if entries.len() == 0 {
        0
    } else {
        count_greeting_entries(entries.drop_last()) + if entries.last().handler is DynamicGreeting {
            1int
        } else {
            0int
        }
    }
}

proof fn lemma_count_push(entries: Seq<RouteEntry>, e: RouteEntry)
    ensures
        count_proxy_entries(entries.push(e)) == count_proxy_entries(entries) + (
        if e.handler is ProxyForward {
            1int
        } else {
            0int
        }),
        count_greeting_entries(entries.push(e)) == count_greeting_entries(entries) + (
        if e.handler is DynamicGreeting {
            1int
        } else {
            0int
        }),
{
    assert(entries.push(e).drop_last() =~= entries);
    assert(entries.push(e).last() == e);
}

/// The shape of a successfully built table for `n` proxy rules: the two
/// fixed greeting entries first, then one proxy entry per rule in order,
/// and the static rule, if any, as the fallback — never as a named route.
pub open spec fn built_table(t: RouteTable, c: Config, lq: bool, lr: bool) -> bool {
    let proxies = config_proxies(c);
    &&& t.wf()
    &&& t.entries@.len() == 2 + proxies.len()
    &&& t.entries@[0].handler is DynamicGreeting
    &&& t.entries@[0].route@ == greet_route_1()
    &&& t.entries@[1].handler is DynamicGreeting
    &&& t.entries@[1].route@ == greet_route_2()
    &&& forall|i: int|
        0 <= i < proxies.len() ==> (#[trigger] t.entries@[2 + i]).route@ == proxies[i].route@
    &&& forall|i: int|
        0 <= i < proxies.len() ==> ((#[trigger] t.entries@[2 + i]).handler matches
            HandlerKind::ProxyForward { target, log_requests, log_responses }
            && target@ == proxies[i].target@ && log_requests == lq && log_responses == lr)
    &&& count_proxy_entries(t.entries@) == proxies.len()
    &&& count_greeting_entries(t.entries@) == 2
    &&& t.fallback is Some <==> c.file_server is Some
    &&& c.file_server matches Some(f) ==> (t.fallback matches Some(g) && g == f)
}

/// Builds the dispatch table from the configuration: always the two fixed
/// greeting routes, one proxy entry per rule with the diagnostic toggles
/// captured, and the static rule as the fallback. Fails, and names the
/// offending pattern, exactly when a proxy rule claims an identical literal
/// pattern twice; the collision is found here, at build time, never at
/// request time. Performs no I/O.
pub fn build(config: &Config, log_requests: bool, log_responses: bool) -> (r: Result<
    RouteTable,
    BuildError,
>)
    ensures
        r matches Ok(t) ==> built_table(t, *config, log_requests, log_responses),
        r is Ok <==> routes_ok(config_proxies(*config)),
        r matches Err(e) ==> (e matches BuildError::DuplicateRoute { route } && exists|k: int|
            0 <= k < config_proxies(*config).len() && #[trigger] collides_at(
                config_proxies(*config),
                k,
            ) && route@ == config_proxies(*config)[k].route@),
{
    proof {
        reveal_strlit("/user/:username");
        reveal_strlit("/user/:username/age/:age");
        assert(greet_route_1().len() == 15);
        assert(greet_route_2().len() == 24);
    }
    let mut entries: Vec<RouteEntry> = Vec::new();
    proof {
        assert(count_proxy_entries(Seq::<RouteEntry>::empty()) == 0);
        assert(count_greeting_entries(Seq::<RouteEntry>::empty()) == 0);
    }

    let mut segs1: Vec<Segment> = Vec::new();
    segs1.push(Segment::Literal { text: String::new() });
    segs1.push(Segment::Literal { text: String::from_str("user") });
    segs1.push(Segment::Param { name: String::from_str("username") });
    let ghost empty_entries = entries@;
    entries.push(
        RouteEntry {
            route: String::from_str("/user/:username"),
            pattern: Pattern { segments: segs1 },
            handler: HandlerKind::DynamicGreeting,
        },
    );

    let mut segs2: Vec<Segment> = Vec::new();
    segs2.push(Segment::Literal { text: String::new() });
    segs2.push(Segment::Literal { text: String::from_str("user") });
    segs2.push(Segment::Param { name: String::from_str("username") });
    segs2.push(Segment::Literal { text: String::from_str("age") });
    segs2.push(Segment::IntParam { name: String::from_str("age") });
    proof {
        lemma_count_push(empty_entries, entries@.last());
    }
    let ghost one_entry = entries@;
    entries.push(
        RouteEntry {
            route: String::from_str("/user/:username/age/:age"),
            pattern: Pattern { segments: segs2 },
            handler: HandlerKind::DynamicGreeting,
        },
    );

    proof {
        lemma_count_push(one_entry, entries@.last());
        assert(greet_segs_1(entries@[0].pattern.segments@));
        assert(greet_segs_2(entries@[1].pattern.segments@));
        assert(count_proxy_entries(entries@) == 0);
        assert(count_greeting_entries(entries@) == 2);
    }

    let ghost proxies_spec = config_proxies(*config);
    if let Some(proxies) = &config.proxies {
        let mut i: usize = 0;
        while i < proxies.len()
            invariant
                proxies@ == proxies_spec,
                proxies_spec == config_proxies(*config),
                i <= proxies.len(),
                entries@.len() == 2 + i,
                entries@[0].handler is DynamicGreeting,
                entries@[0].route@ == greet_route_1(),
                greet_segs_1(entries@[0].pattern.segments@),
                entries@[1].handler is DynamicGreeting,
                entries@[1].route@ == greet_route_2(),
                greet_segs_2(entries@[1].pattern.segments@),
                forall|k: int|
                    0 <= k < i ==> (#[trigger] entries@[2 + k]).route@ == proxies_spec[k].route@,
                forall|k: int|
                    0 <= k < i ==> ((#[trigger] entries@[2 + k]).handler matches
                        HandlerKind::ProxyForward { target, log_requests: lq, log_responses: lr }
                        && target@ == proxies_spec[k].target@ && lq == log_requests && lr
                        == log_responses),
                forall|k: int| 0 <= k < entries@.len() ==> entry_wf(#[trigger] entries@[k]),
                forall|p: int, q: int|
                    0 <= p < q < entries@.len() ==> entries@[p].route@ != entries@[q].route@,
                forall|k: int| 0 <= k < i ==> !#[trigger] collides_at(proxies_spec, k),
                count_proxy_entries(entries@) == i,
                count_greeting_entries(entries@) == 2,
            decreases proxies.len() - i,
        {
            let mut j: usize = 0;
            while j < entries.len()
                invariant
                    proxies@ == proxies_spec,
                    proxies_spec == config_proxies(*config),
                    i < proxies@.len(),
                    forall|m: int| 0 <= m < j ==> (#[trigger] entries@[m]).route@ != proxies_spec[
                        i as int
                    ].route@,
                    entries@.len() == 2 + i,
                    entries@[0].route@ == greet_route_1(),
                    entries@[1].route@ == greet_route_2(),
                    forall|k: int|
                        0 <= k < i ==> (#[trigger] entries@[2 + k]).route@ == proxies_spec[
                            k
                        ].route@,
                decreases entries.len() - j,
            {
                if str_eq(proxies[i].route.as_str(), entries[j].route.as_str()) {
                    proof {
                        assert(collides_at(proxies_spec, i as int)) by {
                            if j >= 2 {
                                let k = j - 2;
                                assert(entries@[2 + k].route@ == proxies_spec[k as int].route@);
                                assert(proxies_spec[k as int].route@ == proxies_spec[
                                    i as int
                                ].route@);
                            }
                        }
                        assert(!routes_ok(proxies_spec));
                    }
                    return Err(BuildError::DuplicateRoute { route: proxies[i].route.clone() });
                }
                j = j + 1;
            }
            proof {
                assert(!collides_at(proxies_spec, i as int)) by {
                    assert(proxies_spec[i as int].route@ != greet_route_1());
                    assert(proxies_spec[i as int].route@ != greet_route_2());
                    assert forall|m: int| 0 <= m < i implies proxies_spec[m].route@
                        != proxies_spec[i as int].route@ by {
                        assert(entries@[2 + m].route@ == proxies_spec[m].route@);
                    }
                }
            }
            let pattern = parse_pattern(proxies[i].route.as_str());
            let ghost before = entries@;
            entries.push(
                RouteEntry {
                    route: proxies[i].route.clone(),
                    pattern,
                    handler: HandlerKind::ProxyForward {
                        target: proxies[i].target.clone(),
                        log_requests,
                        log_responses,
                    },
                },
            );
            proof {
                lemma_count_push(before, entries@.last());
                assert(count_proxy_entries(entries@) == i + 1);
                assert(count_greeting_entries(entries@) == 2);
            }
            i = i + 1;
        }
    }
    let fallback = match &config.file_server {
        Some(f) => {
            let copy = FileServer {
                file_path: f.file_path.clone(),
                route_path: f.route_path.clone(),
                fallback_file: f.fallback_file.clone(),
            };
            proof {
                assert(copy == config.file_server->Some_0);
            }
            Some(copy)
        },
        None => None,
    };
    Ok(RouteTable { entries, fallback })
}

/// How many pieces of a matching path a pattern binds rather than fixes.
pub open spec fn param_count(segs: Seq<Segment>) -> int
    decreases segs.len(),
{
    if segs.len() == 0 {
        0
    } else {
        param_count(segs.drop_last()) + if segs.last() is Literal {
            0int
        } else {
            1int
        }
    }
}

fn count_params(segs: &Vec<Segment>) -> (r: usize)
    ensures
        r == param_count(segs@),
{
    let mut r: usize = 0;
    let mut i: usize = 0;
    while i < segs.len()
        invariant
            i <= segs@.len(),
            r <= i,
            r == param_count(segs@.take(i as int)),
        decreases segs@.len() - i,
    {
        proof {
            assert(segs@.take(i + 1).drop_last() =~= segs@.take(i as int));
            assert(segs@.take(i + 1).last() == segs@[i as int]);
        }
        match &segs[i] {
            Segment::Literal { text: _ } => {},
            _ => {
                r = r + 1;
            },
        }
        i = i + 1;
    }
    proof {
        assert(segs@.take(segs@.len() as int) =~= segs@);
    }
    r
}

/// Whether a pattern accepts the split request path; checked segment-wise.
pub fn pattern_match(p: &Pattern, parts: &Vec<String>) -> (r: bool)
    ensures
        r == pattern_matches(*p, parts.deep_view()),
{
    if p.segments.len() != parts.len() {
        return false;
    }
    let mut i: usize = 0;
    while i < parts.len()
        invariant
            p.segments@.len() == parts@.len(),
            i <= parts@.len(),
            forall|k: int|
                0 <= k < i ==> seg_matches(#[trigger] p.segments@[k], parts.deep_view()[k]),
        decreases parts@.len() - i,
    {
        let ok = match &p.segments[i] {
            Segment::Literal { text } => str_eq(text.as_str(), parts[i].as_str()),
            Segment::Param { name: _ } => true,
            Segment::IntParam { name: _ } => parse_u32(parts[i].as_str()).is_some(),
        };
        if !ok {
            proof {
                assert(!seg_matches(p.segments@[i as int], parts.deep_view()[i as int]));
            }
            return false;
        }
        i = i + 1;
    }
    true
}

/// Whether an entry's pattern accepts the split request path.
pub open spec fn entry_matches(e: RouteEntry, parts: Seq<Seq<char>>) -> bool {
    pattern_matches(e.pattern, parts)
}

/// Precedence between two matching entries: fewer bound parameters wins,
/// ties go to the earlier registration.
pub open spec fn better_match(entries: Seq<RouteEntry>, i: int, j: int) -> bool {
    ||| param_count(entries[i].pattern.segments@) < param_count(entries[j].pattern.segments@)
    ||| (param_count(entries[i].pattern.segments@) == param_count(entries[j].pattern.segments@)
        && i <= j)
}

/// `i` is the entry the table resolves the path to: it matches, and it
/// beats every other matching entry.
pub open spec fn is_best_match(entries: Seq<RouteEntry>, parts: Seq<Seq<char>>, i: int) -> bool {
    &&& 0 <= i < entries.len()
    &&& entry_matches(entries[i], parts)
    &&& forall|j: int|
        0 <= j < entries.len() && entry_matches(#[trigger] entries[j], parts) ==> better_match(
            entries,
            i,
            j,
        )
}

/// The resolved target of one inbound request.
pub enum Dispatch {
    /// The greeting endpoint with its bound path parameters.
    Greeting { username: String, age: Option<u32> },
    /// Forward to the captured upstream target.
    Proxy { target: String, log_requests: bool, log_responses: bool },
    /// No named route matched: the static-file rule answers.
    Static { file_server: FileServer },
    /// No named route matched and no static rule is configured.
    NotFound,
}

/// What dispatching to a matched entry yields for a given split path.
pub open spec fn dispatch_for(e: RouteEntry, parts: Seq<Seq<char>>, d: Dispatch) -> bool {
    match e.handler {
        HandlerKind::DynamicGreeting => (d matches Dispatch::Greeting { username, age }
            && 3 <= parts.len() && username@ == parts[2] && (parts.len() == 3 ==> age is None) && (
        parts.len() == 5 ==> (age matches Some(v) && v == digits_val(parts[4])))),
        HandlerKind::ProxyForward { target, log_requests, log_responses } => (d matches
            Dispatch::Proxy { target: t, log_requests: lq, log_responses: lr } && t@ == target@
            && lq == log_requests && lr == log_responses),
    }
}

/// Resolves a request path against the table: the matching entry with the
/// fewest bound parameters wins, ties going to the earlier registration;
/// when no pattern matches, the static fallback answers if it is
/// configured, and otherwise the request is not found. A malformed typed
/// segment (a non-numeral age) is a routing miss, never a handler error.
pub fn match_route(table: &RouteTable, path: &str) -> (d: Dispatch)
    requires
        table.wf(),
    ensures
        ({
            let parts = spec_split(path@, '/');
            let entries = table.entries@;
            &&& ((forall|i: int|
                0 <= i < entries.len() ==> !entry_matches(#[trigger] entries[i], parts)) <==> (
            d is Static || d is NotFound))
            &&& (exists|i: int|
                0 <= i < entries.len() && entry_matches(#[trigger] entries[i], parts)) ==> (exists|i: int|
                #[trigger] is_best_match(entries, parts, i) && dispatch_for(entries[i], parts, d))
            &&& d is Static ==> (table.fallback matches Some(f) && d matches Dispatch::Static {
                file_server,
            } && file_server == f)
            &&& d is NotFound ==> table.fallback is None
        }),
{
    let parts = split_on(path, '/');
    let ghost parts_dv = parts.deep_view();
    let mut best: usize = 0;
    let mut best_pc: usize = 0;
    let mut have_best = false;
    let mut i: usize = 0;
    while i < table.entries.len()
        invariant
            table.wf(),
            parts_dv == parts.deep_view(),
            i <= table.entries@.len(),
            !have_best ==> forall|k: int|
                0 <= k < i ==> !entry_matches(#[trigger] table.entries@[k], parts_dv),
            have_best ==> {
                &&& best < i
                &&& entry_matches(table.entries@[best as int], parts_dv)
                &&& best_pc == param_count(table.entries@[best as int].pattern.segments@)
                &&& forall|k: int|
                    0 <= k < i && entry_matches(#[trigger] table.entries@[k], parts_dv)
                        ==> better_match(table.entries@, best as int, k)
            },
        decreases table.entries@.len() - i,
    {
        if pattern_match(&table.entries[i].pattern, &parts) {
            let pc = count_params(&table.entries[i].pattern.segments);
            if !have_best || pc < best_pc {
                best = i;
                best_pc = pc;
                have_best = true;
            }
        }
        i = i + 1;
    }
    if have_best {
        proof {
            assert(is_best_match(table.entries@, parts_dv, best as int));
            assert(entry_wf(table.entries@[best as int]));
        }
        let e = &table.entries[best];
        match &e.handler {
            HandlerKind::DynamicGreeting => {
                proof {
                    assert(e.pattern.segments@.len() == parts_dv.len());
                }
                let username = parts[2].clone();
                if parts.len() == 5 {
                    proof {
                        assert(greet_segs_2(e.pattern.segments@));
                        assert(seg_matches(e.pattern.segments@[4], parts_dv[4]));
                    }
                    let age_v = parse_u32(parts[4].as_str()).unwrap();
                    Dispatch::Greeting { username, age: Some(age_v) }
                } else {
                    proof {
                        assert(greet_segs_1(e.pattern.segments@));
                    }
                    Dispatch::Greeting { username, age: None }
                }
            },
            HandlerKind::ProxyForward { target, log_requests, log_responses } => Dispatch::Proxy {
                target: target.clone(),
                log_requests: *log_requests,
                log_responses: *log_responses,
            },
        }
    } else {
        match &table.fallback {
            Some(f) => Dispatch::Static {
                file_server: FileServer {
                    file_path: f.file_path.clone(),
                    route_path: f.route_path.clone(),
                    fallback_file: f.fallback_file.clone(),
                },
            },
            None => Dispatch::NotFound,
        }
    }
}

} // verus!
