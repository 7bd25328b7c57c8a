//! Questions to a resolved model: elements by name, what imports are for,
//! what a namespace holds, what a view exposes.
use crate::ast::{names_view, no_span, Name, NameV, QnV, QualifiedName, Span};
use crate::libcache::texts;
use crate::linker::{sites_ok, sites_view, Linker, RefSite};
use crate::linking::{elem_unit, SiteV, LV};
use crate::naming_ids::text_prop;
use crate::names::LookupAccess;
use crate::refname::{
    basic_name, continues_name, escaped, escaped_char, escaped_chars, ref_text, tail_segments,
};
use crate::resolution;
use crate::rstate::{LookupResult, Resolver, RV};
use crate::satisfaction::{is_member_of, members_from};
use crate::state::{all_below, below, lemma_scope_ok, Builder, BV, UserImport};
use crate::text::{chars_of, str_eq, string_of};
use vstd::prelude::*;

verus! {

/// Splitting a qualified name: the character position, the segment being
/// read, those read, and whether a quote is open.
pub open spec fn split_from(
    s: Seq<char>,
    i: int,
    cur: Seq<char>,
    out: Seq<Seq<char>>,
    quoted: bool,
) -> Seq<Seq<char>>
    decreases s.len() - i,
    when 0 <= i
{
    if i >= s.len() {
        if cur.len() > 0 {
            out.push(cur)
        } else {
            out
        }
    } else if quoted {
        if s[i] == '\\' {
            if i + 1 < s.len() {
                split_from(s, i + 2, cur.push(s[i + 1]), out, true)
            } else {
                split_from(s, i + 1, cur, out, true)
            }
        } else if s[i] == '\'' {
            split_from(s, i + 1, cur, out, false)
        } else {
            split_from(s, i + 1, cur.push(s[i]), out, true)
        }
    } else if s[i] == '\'' {
        split_from(s, i + 1, cur, out, true)
    } else if s[i] == ':' && i + 1 < s.len() && s[i + 1] == ':' {
        split_from(
            s,
            i + 2,
            Seq::empty(),
            if cur.len() > 0 {
                out.push(cur)
            } else {
                out
            },
            false,
        )
    } else {
        split_from(s, i + 1, cur.push(s[i]), out, false)
    }
}

/// The segments of a qualified name without their quotes, empty ones left
/// out.
#[verifier::opaque]
pub open spec fn split(s: Seq<char>) -> Seq<Seq<char>> {
    split_from(s, 0, Seq::empty(), Seq::empty(), false)
}

fn push_segment(out: &mut Vec<String>, cur: &Vec<char>)
    ensures
        texts(final(out)@) == (if cur@.len() > 0 {
            texts(old(out)@).push(cur@)
        } else {
            texts(old(out)@)
        }),
{
    if cur.len() > 0 {
        out.push(string_of(cur));
        assert(texts(out@) =~= texts(old(out)@).push(cur@));
    }
}

/// Splits `A::'two words'::b` into its segments.
pub fn split_qualified(name: &str) -> (r: Vec<String>)
    ensures
        texts(r@) == split(name@),
{
    proof {
        reveal(split);
    }
    let s: Vec<char> = chars_of(name);
    let n: usize = s.len();
    let mut out: Vec<String> = Vec::new();
    let mut cur: Vec<char> = Vec::new();
    let mut quoted: bool = false;
    let mut i: usize = 0;
    assert(texts(out@) =~= Seq::<Seq<char>>::empty());
    assert(cur@ =~= Seq::<char>::empty());
    while i < n
        invariant
            n == s@.len(),
            i <= n,
            s@ == name@,
            split_from(s@, i as int, cur@, texts(out@), quoted) == split(name@),
        decreases n - i,
    {
        let c: char = s[i];
        if quoted {
            if c == '\\' {
                if i + 1 < n {
                    cur.push(s[i + 1]);
                    i += 2;
                } else {
                    i += 1;
                }
            } else if c == '\'' {
                quoted = false;
                i += 1;
            } else {
                cur.push(c);
                i += 1;
            }
        } else if c == '\'' {
            quoted = true;
            i += 1;
        } else if c == ':' && i + 1 < n && s[i + 1] == ':' {
            push_segment(&mut out, &cur);
            cur = Vec::new();
            assert(cur@ =~= Seq::<char>::empty());
            i += 2;
        } else {
            cur.push(c);
            i += 1;
        }
    }
    push_segment(&mut out, &cur);
    out
}

/// The rest of a qualified name from segment `k` on, whatever its
/// visibility.
pub open spec fn rest_unrestricted(
    b: RV,
    elem: usize,
    scope: Option<usize>,
    qn: QnV,
    k: int,
) -> (RV, LookupResult)
    decreases qn.segments.len() - k,
{
    if k < 0 || k >= qn.segments.len() {
        (b, LookupResult::Found(elem, scope))
    } else {
        match scope {
            None => (b, LookupResult::Missing),
            Some(s) => {
                let (b, stamp) = b.next_stamp();
                let (c, hit) = resolution::lookup_at(
                    b.g,
                    b,
                    b.open_count(),
                    s,
                    qn.segments[k].value,
                    k as usize,
                    stamp,
                    LookupAccess::All,
                );
                match hit {
                    LookupResult::Found(e, sub) => rest_unrestricted(c, e, sub, qn, k + 1),
                    _ => (c, hit),
                }
            },
        }
    }
}

/// A qualified name from a scope outwards, whatever its visibility.
pub open spec fn up_unrestricted(b: RV, s: usize, qn: QnV, stamp: u64) -> (RV, LookupResult)
    decreases s,
{
    let (c, hit) = resolution::lookup_at(
        b.g,
        b,
        b.open_count(),
        s,
        qn.segments[0].value,
        0,
        stamp,
        LookupAccess::All,
    );
    match hit {
        LookupResult::Found(e, sub) => rest_unrestricted(c, e, sub, qn, 1),
        LookupResult::Ambiguous => (c, LookupResult::Ambiguous),
        LookupResult::Missing => match b.g.scopes[s as int].parent {
            Some(p) => if p < s {
                up_unrestricted(c, p, qn, stamp)
            } else {
                (c, LookupResult::Missing)
            },
            None => (c, LookupResult::Missing),
        },
    }
}

/// A qualified name by its path in the model, private members included.
#[verifier::opaque]
pub open spec fn unrestricted(b: RV, scope: usize, qn: QnV) -> (RV, LookupResult) {
    if qn.segments.len() == 0 {
        (b, LookupResult::Missing)
    } else {
        let (b, stamp) = b.next_stamp();
        up_unrestricted(
            b,
            if qn.is_global {
                0
            } else {
                scope
            },
            qn,
            stamp,
        )
    }
}

/// A name made of segments, as if written nowhere.
pub open spec fn bare_name(segs: Seq<Seq<char>>) -> QnV {
    QnV {
        is_global: false,
        segments: segs.map_values(|s: Seq<char>| NameV { value: s, span: no_span() }),
        span: no_span(),
    }
}

/// The element under a qualified name from the model's root.
#[verifier::opaque]
pub open spec fn qualified(b: RV, name: Seq<char>) -> (RV, Option<usize>) {
    let (b, hit) = unrestricted(b, 0, bare_name(split(name)));
    (b, hit.elem())
}

fn name_of(segs: &Vec<String>) -> (r: QualifiedName)
    ensures
        r@ == bare_name(texts(segs@)),
{
    let mut segments: Vec<Name> = Vec::new();
    let n: usize = segs.len();
    let mut i: usize = 0;
    let ghost want = bare_name(texts(segs@)).segments;
    while i < n
        invariant
            n == segs@.len(),
            i <= n,
            want == bare_name(texts(segs@)).segments,
            names_view(segments@) == want.take(i as int),
        decreases n - i,
    {
        let x = Name { value: segs[i].clone(), span: Span { start: 0, end: 0 } };
        let ghost before = names_view(segments@);
        segments.push(x);
        assert(names_view(segments@) =~= before.push(x@));
        assert(texts(segs@)[i as int] == segs@[i as int]@);
        assert(want.take(i + 1) =~= before.push(want[i as int]));
        i += 1;
    }
    assert(want.take(n as int) =~= want);
    QualifiedName { is_global: false, segments, span: Span { start: 0, end: 0 } }
}

impl Resolver {
    fn rest_unrestricted(
        &mut self,
        elem: usize,
        scope: Option<usize>,
        qn: &QualifiedName,
        k: usize,
    ) -> (r: LookupResult)
        requires
            old(self)@.wf(),
            elem < old(self)@.n(),
            below(scope, old(self)@.ns()),
            k <= qn@.segments.len(),
        ensures
            (final(self)@, r) == rest_unrestricted(old(self)@, elem, scope, qn@, k as int),
            final(self)@.wf(),
            final(self)@.g == old(self)@.g,
            final(self)@.lib_boundary == old(self)@.lib_boundary,
            r.ok(final(self)@.n(), final(self)@.ns()),
        decreases qn@.segments.len() - k,
    {
        if k >= qn.segments.len() {
            return LookupResult::Found(elem, scope);
        }
        match scope {
            None => LookupResult::Missing,
            Some(s) => {
                let stamp: u64 = self.next_stamp();
                let ghost m = self@.open_count();
                let hit = self.lookup_at(
                    Ghost(m),
                    s,
                    qn.segments[k].value.as_str(),
                    k,
                    stamp,
                    LookupAccess::All,
                );
                match hit {
                    LookupResult::Found(e, sub) => self.rest_unrestricted(e, sub, qn, k + 1),
                    _ => hit,
                }
            },
        }
    }

    fn up_unrestricted(&mut self, s: usize, qn: &QualifiedName, stamp: u64) -> (r: LookupResult)
        requires
            old(self)@.wf(),
            s < old(self)@.ns(),
            qn@.segments.len() > 0,
        ensures
            (final(self)@, r) == up_unrestricted(old(self)@, s, qn@, stamp),
            final(self)@.wf(),
            final(self)@.g == old(self)@.g,
            final(self)@.lib_boundary == old(self)@.lib_boundary,
            r.ok(final(self)@.n(), final(self)@.ns()),
        decreases s,
    {
        let ghost m = self@.open_count();
        let hit = self.lookup_at(
            Ghost(m),
            s,
            qn.segments[0].value.as_str(),
            0,
            stamp,
            LookupAccess::All,
        );
        match hit {
            LookupResult::Found(e, sub) => self.rest_unrestricted(e, sub, qn, 1),
            LookupResult::Ambiguous => LookupResult::Ambiguous,
            LookupResult::Missing => {
                proof {
                    crate::rstate::lemma_table_sizes(self@);
                    lemma_scope_ok(self@.g, s as int);
                }
                match self.scope_parent(s) {
                    Some(p) => self.up_unrestricted(p, qn, stamp),
                    None => LookupResult::Missing,
                }
            },
        }
    }

    /// Look a path up for tooling: private and protected members count too.
    pub fn resolve_unrestricted(&mut self, scope: usize, qn: &QualifiedName) -> (r: LookupResult)
        requires
            old(self)@.wf(),
            scope < old(self)@.ns(),
        ensures
            (final(self)@, r) == unrestricted(old(self)@, scope, qn@),
            final(self)@.wf(),
            final(self)@.g == old(self)@.g,
            final(self)@.lib_boundary == old(self)@.lib_boundary,
            r.ok(final(self)@.n(), final(self)@.ns()),
    {
        proof {
            reveal(unrestricted);
        }
        if qn.segments.len() == 0 {
            return LookupResult::Missing;
        }
        let stamp: u64 = self.next_stamp();
        let from: usize = if qn.is_global {
            0
        } else {
            scope
        };
        self.up_unrestricted(from, qn, stamp)
    }

    /// The element under a `::`-separated name, quoted segments allowed,
    /// from the model's root.
    pub fn resolve_qualified(&mut self, name: &str) -> (r: Option<usize>)
        requires
            old(self)@.wf(),
        ensures
            (final(self)@, r) == qualified(old(self)@, name@),
            final(self)@.wf(),
            final(self)@.g == old(self)@.g,
            final(self)@.lib_boundary == old(self)@.lib_boundary,
            below(r, final(self)@.n()),
    {
        proof {
            reveal(qualified);
            reveal(RV::wf);
        }
        let segs: Vec<String> = split_qualified(name);
        let qn: QualifiedName = name_of(&segs);
        let hit = self.resolve_unrestricted(0, &qn);
        hit.element()
    }
}

impl Linker {
    /// The element under a qualified name from the model's root.
    pub fn resolve_qualified(&mut self, name: &str) -> (r: Option<usize>)
        requires
            old(self)@.wf(),
        ensures
            ({
                let (b, hit) = qualified(old(self)@.r, name@);
                final(self)@ == (LV { r: b, ..old(self)@ }) && r == hit
            }),
            final(self)@.wf(),
            final(self)@.r.g == old(self)@.r.g,
            below(r, final(self)@.r.n()),
    {
        proof {
            reveal(Linker::view);
        }
        self.res.resolve_qualified(name)
    }
}

/// The names an element declares.
pub open spec fn own_names(g: BV, e: usize) -> Seq<Seq<char>> {
    let x = g.elements[e as int];
    let a = match text_prop(x, "declaredName"@) {
        Some(s) => seq![s],
        None => Seq::empty(),
    };
    match text_prop(x, "declaredShortName"@) {
        Some(s) => a.push(s),
        None => a,
    }
}

/// The elements of a list, each with a depth.
pub open spec fn at_depth(s: Seq<usize>, depth: usize) -> Seq<(usize, usize)> {
    s.map_values(|e: usize| (e, depth))
}

/// The names below the frontier: members are followed eight levels deep and
/// until 4096 names are found. Ownership is a forest, so `fuel`, the number
/// of elements, never runs out.
pub open spec fn names_below(
    g: BV,
    frontier: Seq<(usize, usize)>,
    out: Seq<Seq<char>>,
    fuel: nat,
) -> Seq<Seq<char>>
    decreases fuel,
{
    if frontier.len() == 0 || fuel == 0 {
        out
    } else {
        let (e, depth) = frontier.last();
        let rest = frontier.drop_last();
        let out = out + own_names(g, e);
        if depth < 8 && out.len() < 4096 {
            names_below(
                g,
                rest + at_depth(members_from(g, e, 0), (depth + 1) as usize),
                out,
                (fuel - 1) as nat,
            )
        } else {
            names_below(g, rest, out, (fuel - 1) as nat)
        }
    }
}

/// Whether a span lies within another.
pub open spec fn within(a: Span, b: Span) -> bool {
    a.start >= b.start && a.end <= b.end
}

/// Whether a site is the target of the import that stands at `span`.
pub open spec fn is_import_target(s: SiteV, unit: usize, span: Span) -> bool {
    s.unit == unit && within(s.span, span) && (s.kind == "importedNamespace"@ || s.kind
        == "importedMembership"@)
}

/// The target of an import: the first such site from `k` on.
pub open spec fn import_site(sites: Seq<SiteV>, unit: usize, span: Span, k: int) -> Option<usize>
    decreases sites.len() - k,
    when 0 <= k
{
    if k >= sites.len() {
        None
    } else if is_import_target(sites[k], unit, span) {
        Some(sites[k].target)
    } else {
        import_site(sites, unit, span, k + 1)
    }
}

/// The owner of an element, or the carrier of a relationship.
pub open spec fn owner_of(g: BV, e: usize) -> Option<usize> {
    match g.elements[e as int].owning {
        Some(rel) => g.elements[rel as int].carrier,
        None => g.elements[e as int].carrier,
    }
}

/// Whether `target` is met within `steps` steps up from `e`.
pub open spec fn under(g: BV, e: usize, target: usize, steps: nat) -> bool
    decreases steps,
{
    steps > 0 && match owner_of(g, e) {
        Some(o) => o == target || under(g, o, target, (steps - 1) as nat),
        None => false,
    }
}

/// Whether a reference of the unit outside `span`, from `k` on, lives at or
/// under the target.
pub open spec fn feeds(
    g: BV,
    sites: Seq<SiteV>,
    unit: usize,
    span: Span,
    target: usize,
    k: int,
) -> bool
    decreases sites.len() - k,
    when 0 <= k
{
    k < sites.len() && ((sites[k].unit == unit && !within(sites[k].span, span) && (sites[k].target
        == target || under(g, sites[k].target, target, 64))) || feeds(g, sites, unit, span, target, k + 1))
}

/// An import that feeds nothing: the import, its target, its unit, its span.
#[derive(Clone, Copy, Debug)]
pub struct UnusedImport {
    pub import: usize,
    pub target: usize,
    pub unit: usize,
    pub span: Span,
}

/// Whether an import is private and no lookup went through it.
pub open spec fn idle(l: LV, i: UserImport) -> bool {
    i.private && !l.r.used[i.relationship as int]
}

/// The unused private imports from `k` on.
pub open spec fn unused_from(l: LV, k: int) -> Seq<UnusedImport>
    decreases l.r.g.user_imports.len() - k,
    when 0 <= k
{
    if k >= l.r.g.user_imports.len() {
        Seq::empty()
    } else {
        let i = l.r.g.user_imports[k];
        let unit = elem_unit(l.unit_starts, i.relationship);
        let rest = unused_from(l, k + 1);
        match import_site(l.sites, unit, i.span, 0) {
            Some(target) => if idle(l, i) && !feeds(l.r.g, l.sites, unit, i.span, target, 0) {
                seq![UnusedImport { import: i.relationship, target, unit, span: i.span }] + rest
            } else {
                rest
            },
            None => rest,
        }
    }
}

impl Builder {
    fn push_own_names(&self, e: usize, out: &mut Vec<String>)
        requires
            e < self@.n(),
        ensures
            texts(final(out)@) == texts(old(out)@) + own_names(self@, e),
    {
        let ghost start = texts(out@);
        if let Some(s) = self.text_of(e, "declaredName") {
            let ghost sv = s@;
            out.push(s);
            assert(texts(out@) =~= start.push(sv));
        }
        let ghost mid = texts(out@);
        if let Some(s) = self.text_of(e, "declaredShortName") {
            let ghost sv = s@;
            out.push(s);
            assert(texts(out@) =~= mid.push(sv));
        }
        assert(texts(out@) =~= start + own_names(self@, e));
    }

    /// The declared names of an element and of everything under it, to a
    /// small depth: what an import of it can supply.
    pub fn namespace_member_names(&self, e: usize) -> (r: Vec<String>)
        requires
            self@.wf(),
            e < self@.n(),
        ensures
            texts(r@) == names_below(self@, seq![(e, 0usize)], Seq::empty(), self@.n()),
    {
        let mut out: Vec<String> = Vec::new();
        let mut frontier: Vec<(usize, usize)> = Vec::new();
        frontier.push((e, 0));
        assert(frontier@ =~= seq![(e, 0usize)]);
        assert(texts(out@) =~= Seq::<Seq<char>>::empty());
        let mut fuel: usize = self.element_count();
        let ghost whole = names_below(self@, seq![(e, 0usize)], Seq::empty(), self@.n());
        while frontier.len() > 0 && fuel > 0
            invariant
                self@.wf(),
                forall|i: int| 0 <= i < frontier@.len() ==> (#[trigger] frontier@[i]).0 < self@.n(),
                whole == names_below(self@, frontier@, texts(out@), fuel as nat),
            decreases fuel,
        {
            let ghost f = frontier@;
            if let Some((x, depth)) = frontier.pop() {
                assert(frontier@ =~= f.drop_last());
                assert((x, depth) == f.last());
                self.push_own_names(x, &mut out);
                assert(texts(out@).len() == out@.len());
                if depth < 8 && out.len() < 4096 {
                    let members: Vec<usize> = self.members_of(x);
                    let ghost rest = frontier@;
                    let ghost all = at_depth(members@, (depth + 1) as usize);
                    let n: usize = members.len();
                    let mut k: usize = 0;
                    assert(frontier@ =~= rest + all.take(0));
                    while k < n
                        invariant
                            n == members@.len(),
                            k <= n,
                            depth < 8,
                            all_below(members@, self@.n()),
                            all == at_depth(members@, (depth + 1) as usize),
                            frontier@ == rest + all.take(k as int),
                            forall|i: int|
                                0 <= i < frontier@.len() ==> (#[trigger] frontier@[i]).0 < self@.n(),
                        decreases n - k,
                    {
                        frontier.push((members[k], depth + 1));
                        assert(all.take(k + 1) =~= all.take(k as int).push(all[k as int]));
                        assert(frontier@ =~= rest + all.take(k + 1));
                        k += 1;
                    }
                    assert(all.take(n as int) =~= all);
                }
            }
            fuel -= 1;
        }
        out
    }

    /// The owner of an element, or the carrier of a relationship.
    pub fn owner(&self, e: usize) -> (r: Option<usize>)
        requires
            self@.wf(),
            e < self@.n(),
        ensures
            r == owner_of(self@, e),
            below(r, self@.n()),
    {
        match self.owning_of(e) {
            Some(rel) => self.carrier_of(rel),
            None => self.carrier_of(e),
        }
    }

    fn lies_under(&self, e: usize, target: usize, steps: u8) -> (r: bool)
        requires
            self@.wf(),
            e < self@.n(),
        ensures
            r == under(self@, e, target, steps as nat),
        decreases steps,
    {
        if steps == 0 {
            return false;
        }
        match self.owner(e) {
            Some(o) => o == target || self.lies_under(o, target, steps - 1),
            None => false,
        }
    }
}

fn is_within(a: Span, b: Span) -> (r: bool)
    ensures
        r == within(a, b),
{
    a.start >= b.start && a.end <= b.end
}

fn find_import_site(sites: &Vec<RefSite>, unit: usize, span: Span) -> (r: Option<usize>)
    ensures
        r == import_site(sites_view(sites@), unit, span, 0),
{
    let n: usize = sites.len();
    let mut k: usize = 0;
    while k < n
        invariant
            n == sites@.len(),
            k <= n,
            import_site(sites_view(sites@), unit, span, 0) == import_site(
                sites_view(sites@),
                unit,
                span,
                k as int,
            ),
        decreases n - k,
    {
        let s: RefSite = sites[k];
        assert(sites_view(sites@)[k as int] == s@);
        if s.unit == unit && is_within(s.span, span) && (str_eq(s.kind, "importedNamespace")
            || str_eq(s.kind, "importedMembership")) {
            return Some(s.target);
        }
        k += 1;
    }
    None
}

fn is_fed(g: &Builder, sites: &Vec<RefSite>, unit: usize, span: Span, target: usize) -> (r: bool)
    requires
        g@.wf(),
        sites_ok(sites_view(sites@), g@.n()),
    ensures
        r == feeds(g@, sites_view(sites@), unit, span, target, 0),
{
    let n: usize = sites.len();
    let mut k: usize = 0;
    while k < n
        invariant
            g@.wf(),
            sites_ok(sites_view(sites@), g@.n()),
            n == sites@.len(),
            k <= n,
            feeds(g@, sites_view(sites@), unit, span, target, 0) == feeds(
                g@,
                sites_view(sites@),
                unit,
                span,
                target,
                k as int,
            ),
        decreases n - k,
    {
        let s: RefSite = sites[k];
        assert(sites_view(sites@)[k as int] == s@);
        if s.unit == unit && !is_within(s.span, span) && (s.target == target || g.lies_under(
            s.target,
            target,
            64,
        )) {
            return true;
        }
        k += 1;
    }
    false
}

impl Linker {
    fn is_idle(&self, k: usize) -> (r: bool)
        requires
            self@.wf(),
            k < self@.r.g.user_imports.len(),
        ensures
            r == idle(self@, self@.r.g.user_imports[k as int]),
    {
        proof {
            reveal(Linker::view);
            reveal(Resolver::view);
            reveal(Builder::view);
            reveal(RV::wf);
            reveal(BV::wf);
            assert(self@.r.g.user_imports[k as int].relationship < self@.r.n());
        }
        let i: UserImport = self.res.graph.user_imports[k];
        i.private && !self.res.used[i.relationship]
    }

    /// The private imports that feed nothing in their unit: no lookup went
    /// through them, and nothing the unit refers to lies under what they
    /// import.
    pub fn unused_private_imports(&self) -> (r: Vec<UnusedImport>)
        requires
            self@.wf(),
        ensures
            r@ == unused_from(self@, 0),
    {
        proof {
            reveal(Linker::view);
            reveal(Resolver::view);
            reveal(RV::wf);
        }
        let g: &Builder = &self.res.graph;
        proof {
            reveal(Builder::view);
        }
        let mut out: Vec<UnusedImport> = Vec::new();
        let n: usize = g.user_imports.len();
        let mut k: usize = 0;
        let ghost whole = unused_from(self@, 0);
        assert(out@ + whole =~= whole);
        while k < n
            invariant
                self@.wf(),
                g@ == self@.r.g,
                g@.wf(),
                self@.sites == sites_view(self.sites@),
                sites_ok(self@.sites, self@.r.n()),
                n == self@.r.g.user_imports.len(),
                g.user_imports@ == self@.r.g.user_imports,
                k <= n,
                out@ + unused_from(self@, k as int) == whole,
            decreases n - k,
        {
            let i: UserImport = g.user_imports[k];
            let unit: usize = self.unit_of_elem(i.relationship);
            let ghost before = out@;
            let ghost rest = unused_from(self@, k + 1);
            if let Some(target) = find_import_site(&self.sites, unit, i.span) {
                if self.is_idle(k) && !is_fed(g, &self.sites, unit, i.span, target) {
                    let x = UnusedImport { import: i.relationship, target, unit, span: i.span };
                    out.push(x);
                    assert(before + (seq![x] + rest) =~= out@ + rest);
                }
            }
            k += 1;
        }
        assert(out@ + Seq::<UnusedImport>::empty() =~= out@);
        out
    }
}

/// Whether an import feeds nothing: it is private, no lookup went through it,
/// its target resolved, and no other reference of its unit lies at or under
/// the target.
pub open spec fn feeds_nothing(l: LV, i: UserImport) -> bool {
    let unit = elem_unit(l.unit_starts, i.relationship);
    match import_site(l.sites, unit, i.span, 0) {
        Some(target) => idle(l, i) && !feeds(l.r.g, l.sites, unit, i.span, target, 0),
        None => false,
    }
}

/// The report on an import.
pub open spec fn report_on(l: LV, i: UserImport) -> UnusedImport {
    let unit = elem_unit(l.unit_starts, i.relationship);
    UnusedImport {
        import: i.relationship,
        target: import_site(l.sites, unit, i.span, 0)->0,
        unit,
        span: i.span,
    }
}

/// Exactly the imports that feed nothing are reported, from the `k`-th on.
proof fn lemma_unused(l: LV, k: int)
    requires
        0 <= k <= l.r.g.user_imports.len(),
    ensures
        forall|i: int|
            k <= i < l.r.g.user_imports.len() && feeds_nothing(l, #[trigger] l.r.g.user_imports[i])
                ==> unused_from(l, k).contains(report_on(l, l.r.g.user_imports[i])),
        forall|j: int|
            0 <= j < unused_from(l, k).len() ==> exists|i: int|
                k <= i < l.r.g.user_imports.len() && feeds_nothing(l, #[trigger] l.r.g.user_imports[i])
                    && #[trigger] unused_from(l, k)[j] == report_on(l, l.r.g.user_imports[i]),
    decreases l.r.g.user_imports.len() - k,
{
    let n = l.r.g.user_imports.len() as int;
    if k < n {
        let x = l.r.g.user_imports[k];
        let rest = unused_from(l, k + 1);
        let s = unused_from(l, k);
        lemma_unused(l, k + 1);
        let shift: int = if feeds_nothing(l, x) {
            1
        } else {
            0
        };
        if shift == 1 {
            assert(s =~= seq![report_on(l, x)] + rest);
            assert(s[0] == report_on(l, x));
        } else {
            assert(s == rest);
        }
        assert forall|i: int|
            k <= i < n && feeds_nothing(l, #[trigger] l.r.g.user_imports[i]) implies s.contains(
            report_on(l, l.r.g.user_imports[i]),
        ) by {
            if i > k {
                let y = report_on(l, l.r.g.user_imports[i]);
                assert(rest.contains(y));
                let q = choose|q: int| 0 <= q < rest.len() && rest[q] == y;
                assert(s[q + shift] == y);
            }
        }
        assert forall|j: int| 0 <= j < s.len() implies exists|i: int|
            k <= i < n && feeds_nothing(l, #[trigger] l.r.g.user_imports[i]) && #[trigger] s[j]
                == report_on(l, l.r.g.user_imports[i]) by {
            if shift == 1 && j == 0 {
                assert(feeds_nothing(l, l.r.g.user_imports[k]));
            } else {
                assert(s[j] == rest[j - shift]);
                let i = choose|i: int|
                    k + 1 <= i < n && feeds_nothing(l, #[trigger] l.r.g.user_imports[i]) && rest[j
                        - shift] == report_on(l, l.r.g.user_imports[i]);
                assert(feeds_nothing(l, l.r.g.user_imports[i]));
            }
        }
    }
}

/// An import is reported as unused exactly where it feeds nothing: it is
/// private, no lookup went through it, its target resolved, and nothing else
/// that its unit refers to lies at or under the target.
pub proof fn law_unused_imports_feed_nothing(l: LV, u: UnusedImport)
    ensures
        unused_from(l, 0).contains(u) <==> exists|i: int|
            0 <= i < l.r.g.user_imports.len() && feeds_nothing(l, #[trigger] l.r.g.user_imports[i])
                && u == report_on(l, l.r.g.user_imports[i]),
{
    lemma_unused(l, 0);
    if unused_from(l, 0).contains(u) {
        let j = choose|j: int| 0 <= j < unused_from(l, 0).len() && unused_from(l, 0)[j] == u;
        assert(unused_from(l, 0)[j] == u);
    }
}

/// A name that a path can address: not empty, and without the control
/// characters that are escaped by a letter.
pub open spec fn addressable(name: Seq<char>) -> bool {
    name.len() > 0 && forall|i: int|
        0 <= i < name.len() ==> (#[trigger] name[i]) != '\n' && name[i] != '\r' && name[i] != '\t'
}

/// A text holds a part from `i` on.
pub open spec fn stands_at(s: Seq<char>, i: int, part: Seq<char>) -> bool {
    0 <= i && i + part.len() <= s.len() && s.subrange(i, i + part.len()) == part
}

proof fn lemma_split_basic(
    s: Seq<char>,
    i: int,
    name: Seq<char>,
    cur: Seq<char>,
    out: Seq<Seq<char>>,
)
    requires
        stands_at(s, i, name),
        forall|k: int| 0 <= k < name.len() ==> continues_name(#[trigger] name[k]),
    ensures
        split_from(s, i, cur, out, false) == split_from(s, i + name.len(), cur + name, out, false),
    decreases name.len(),
{
    if name.len() == 0 {
        assert(cur + name =~= cur);
    } else {
        let rest = name.drop_first();
        assert(s[i] == name[0]) by {
            assert(s.subrange(i, i + name.len())[0] == name[0]);
        }
        assert(continues_name(name[0]));
        assert(s.subrange(i + 1, i + 1 + rest.len()) =~= s.subrange(i, i + name.len()).drop_first());
        assert forall|k: int| 0 <= k < rest.len() implies continues_name(#[trigger] rest[k]) by {
            assert(rest[k] == name[k + 1]);
        }
        lemma_split_basic(s, i + 1, rest, cur.push(s[i]), out);
        assert(cur.push(s[i]) + rest =~= cur + name);
    }
}

proof fn lemma_split_quoted(
    s: Seq<char>,
    i: int,
    name: Seq<char>,
    cur: Seq<char>,
    out: Seq<Seq<char>>,
)
    requires
        stands_at(s, i, escaped_chars(name)),
        forall|k: int|
            0 <= k < name.len() ==> (#[trigger] name[k]) != '\n' && name[k] != '\r' && name[k] != '\t',
    ensures
        split_from(s, i, cur, out, true) == split_from(
            s,
            i + escaped_chars(name).len(),
            cur + name,
            out,
            true,
        ),
    decreases name.len(),
{
    if name.len() == 0 {
        assert(cur + name =~= cur);
    } else {
        let init = name.drop_last();
        let c = name.last();
        let whole = escaped_chars(name);
        let front = escaped_chars(init);
        let back = escaped_char(c);
        assert(whole =~= front + back);
        assert(s.subrange(i, i + front.len()) =~= s.subrange(i, i + whole.len()).take(
            front.len() as int,
        ));
        assert(whole.take(front.len() as int) =~= front);
        assert forall|k: int| 0 <= k < init.len() implies (#[trigger] init[k]) != '\n' && init[k] != '\r'
            && init[k] != '\t' by {
            assert(init[k] == name[k]);
        }
        lemma_split_quoted(s, i, init, cur, out);
        let at = i + front.len();
        assert forall|k: int| 0 <= k < back.len() implies s[at + k] == #[trigger] back[k] by {
            assert(s.subrange(i, i + whole.len())[front.len() + k] == whole[front.len() + k]);
        }
        assert(name[name.len() - 1] == c);
        assert(s[at + 0] == back[0]);
        assert((cur + init).push(c) =~= cur + name);
        if back.len() > 1 {
            assert(s[at + 1] == back[1]);
        }
    }
}

proof fn lemma_split_escaped(s: Seq<char>, i: int, name: Seq<char>, out: Seq<Seq<char>>)
    requires
        stands_at(s, i, escaped(name)),
        addressable(name),
    ensures
        split_from(s, i, Seq::empty(), out, false) == split_from(
            s,
            i + escaped(name).len(),
            name,
            out,
            false,
        ),
{
    reveal(escaped);
    let none = Seq::<char>::empty();
    assert(none + name =~= name);
    if basic_name(name) {
        lemma_split_basic(s, i, name, none, out);
    } else {
        let inner = escaped_chars(name);
        let whole = escaped(name);
        assert(whole[0] == '\'' && whole[inner.len() + 1int] == '\'');
        assert(s.subrange(i, i + whole.len())[0] == s[i]);
        assert(s.subrange(i, i + whole.len())[inner.len() + 1int] == s[i + 1 + inner.len()]);
        assert(s.subrange(i + 1, i + 1 + inner.len()) =~= s.subrange(i, i + whole.len()).subrange(
            1,
            1 + inner.len() as int,
        ));
        assert(whole.subrange(1, 1 + inner.len() as int) =~= inner);
        lemma_split_quoted(s, i + 1, name, none, out);
    }
}

proof fn lemma_split_tail(qn: QnV, k: int, done: Seq<char>, out: Seq<Seq<char>>)
    requires
        1 <= k <= qn.segments.len(),
        forall|j: int| 0 <= j < qn.segments.len() ==> addressable((#[trigger] qn.segments[j]).value),
        out == segment_values(qn).take(k - 1),
    ensures
        split_from(
            done + tail_segments(qn, k),
            done.len() as int,
            qn.segments[k - 1].value,
            out,
            false,
        ) == segment_values(qn),
    decreases qn.segments.len() - k,
{
    let s = done + tail_segments(qn, k);
    let cur = qn.segments[k - 1].value;
    let all = segment_values(qn);
    assert(addressable(cur));
    assert(all.take(k) =~= out.push(cur));
    if k < qn.segments.len() {
        reveal_strlit("::");
        let name = qn.segments[k].value;
        let step = "::"@ + escaped(name);
        let rest = tail_segments(qn, k + 1);
        let i = done.len() as int;
        assert(addressable(name));
        assert(s =~= (done + step) + rest);
        assert(s[i] == ':' && s[i + 1] == ':');
        assert(s.subrange(i + 2, i + 2 + escaped(name).len()) =~= escaped(name));
        lemma_split_escaped(s, i + 2, name, out.push(cur));
        lemma_split_tail(qn, k + 1, done + step, out.push(cur));
    } else {
        assert(s =~= done);
        assert(all.take(k) =~= all);
    }
}

/// The names of a qualified name.
pub open spec fn segment_values(qn: QnV) -> Seq<Seq<char>> {
    qn.segments.map_values(|n: NameV| n.value)
}

/// A reference text read as a path gives back the names it was written from.
pub proof fn law_references_read_back(qn: QnV)
    requires
        !qn.is_global,
        forall|j: int| 0 <= j < qn.segments.len() ==> addressable((#[trigger] qn.segments[j]).value),
    ensures
        split(ref_text(qn)) == segment_values(qn),
{
    reveal(split);
    reveal(ref_text);
    reveal_strlit("");
    let s = ref_text(qn);
    if qn.segments.len() == 0 {
        assert(s.len() == 0);
        assert(segment_values(qn) =~= Seq::<Seq<char>>::empty());
    } else {
        let first = qn.segments[0].value;
        let done = escaped(first);
        assert(addressable(first));
        assert(s =~= done + tail_segments(qn, 1));
        assert(s.subrange(0, done.len() as int) =~= done);
        lemma_split_escaped(s, 0, first, Seq::empty());
        assert(segment_values(qn).take(0) =~= Seq::<Seq<char>>::empty());
        lemma_split_tail(qn, 1, done, Seq::empty());
    }
}

proof fn lemma_members_listed(g: BV, t: usize, i: int, e: usize)
    requires
        0 <= i,
        g.n() <= usize::MAX,
    ensures
        members_from(g, t, i).contains(e) <==> i <= e < g.n() && is_member_of(g, e as int, t),
    decreases g.n() - i,
{
    if i < g.n() {
        lemma_members_listed(g, t, i + 1, e);
        let rest = members_from(g, t, i + 1);
        let all = members_from(g, t, i);
        if is_member_of(g, i, t) {
            assert(all =~= seq![i as usize] + rest);
            if e == i {
                assert(all[0] == e);
            } else if rest.contains(e) {
                let k = choose|k: int| 0 <= k < rest.len() && rest[k] == e;
                assert(all[k + 1] == e);
            }
            if all.contains(e) && e != i {
                let k = choose|k: int| 0 <= k < all.len() && all[k] == e;
                assert(rest[k - 1] == e);
            }
        }
    }
}

/// The members of an element are the elements that it owns through a
/// membership: each has it as its owner, and was made after it.
pub proof fn law_members_and_owners_agree(g: BV, t: usize, e: usize)
    requires
        g.wf(),
        e < g.n(),
    ensures
        members_from(g, t, 0).contains(e) <==> is_member_of(g, e as int, t),
        members_from(g, t, 0).contains(e) ==> owner_of(g, e) == Some(t) && t < e,
{
    reveal(BV::wf);
    lemma_members_listed(g, t, 0, e);
    assert(g.elem_ok(e as int));
    if let Some(r) = g.elements[e as int].owning {
        assert(g.elem_ok(r as int));
    }
}

} // verus!
