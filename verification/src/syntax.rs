//! Readings of the syntax tree that lowering shares.

use crate::ast::{
    names_view, qns_view, ClassificationOp, Expr, ExprKind, FeatureSpecialization, Member,
    MemberKind, Name, NameV, QnV, QualifiedName, Span, TargetRef, Usage, UsageDetail, UsageKind,
    UsagePrefix,
};
use crate::text::chars_of;
use vstd::prelude::*;

verus! {

/// The declared name, or else the given text.
#[verifier::opaque]
pub open spec fn name_or_spec(name: Option<Name>, other: Seq<char>) -> Seq<char> {
    match name {
        Some(n) => n.value@,
        None => other,
    }
}

pub fn name_or(name: &Option<Name>, other: &str) -> (r: String)
    ensures
        r@ == name_or_spec(*name, other@),
{
    proof {
        reveal(name_or_spec);
    }
    match name {
        Some(n) => n.value.clone(),
        None => other.to_owned(),
    }
}

/// The last name of a qualified name.
pub open spec fn last_name(qn: QualifiedName) -> Option<Seq<char>> {
    if qn.segments@.len() > 0 {
        Some(qn.segments@[qn.segments@.len() - 1].value@)
    } else {
        None
    }
}

/// The last name a reference spells.
pub open spec fn target_last_name(t: TargetRef) -> Option<Seq<char>> {
    match t {
        TargetRef::Name(qn) => last_name(qn),
        TargetRef::Chain(links) => if links@.len() > 0 {
            last_name(links@[links@.len() - 1])
        } else {
            None
        },
    }
}

fn qn_last(qn: &QualifiedName) -> (r: Option<String>)
    ensures
        crate::state::opt_text(r) == last_name(*qn),
{
    let n: usize = qn.segments.len();
    if n > 0 {
        Some(qn.segments[n - 1].value.clone())
    } else {
        None
    }
}

fn target_last(t: &TargetRef) -> (r: Option<String>)
    ensures
        crate::state::opt_text(r) == target_last_name(*t),
{
    match t {
        TargetRef::Name(qn) => qn_last(qn),
        TargetRef::Chain(links) => {
            let n: usize = links.len();
            if n > 0 {
                qn_last(&links[n - 1])
            } else {
                None
            }
        },
    }
}

/// The reference that names an unnamed feature with the clauses from `k`
/// on: the first referenced feature, or the first feature of the first
/// redefinition clause that has one.
pub open spec fn naming_target(specs: Seq<FeatureSpecialization>, k: int) -> Option<TargetRef>
    decreases specs.len() - k,
{
    if 0 <= k < specs.len() {
        match specs[k] {
            FeatureSpecialization::References(t) => Some(t),
            FeatureSpecialization::Redefines(ts) => if ts@.len() > 0 {
                Some(ts@[0])
            } else {
                naming_target(specs, k + 1)
            },
            _ => naming_target(specs, k + 1),
        }
    } else {
        None
    }
}

/// The effective name of an unnamed feature: the last name of the first
/// feature it redefines or references.
#[verifier::opaque]
pub open spec fn effective_ref_name_spec(specs: Vec<FeatureSpecialization>) -> Option<Seq<char>> {
    match naming_target(specs@, 0) {
        Some(t) => target_last_name(t),
        None => None,
    }
}

pub fn effective_ref_name(specs: &Vec<FeatureSpecialization>) -> (r: Option<String>)
    ensures
        crate::state::opt_text(r) == effective_ref_name_spec(*specs),
{
    proof {
        reveal(effective_ref_name_spec);
    }
    let mut k: usize = 0;
    while k < specs.len()
        invariant
            k <= specs@.len(),
            naming_target(specs@, k as int) == naming_target(specs@, 0),
        decreases specs@.len() - k,
    {
        proof {
            reveal(effective_ref_name_spec);
        }
        match &specs[k] {
            FeatureSpecialization::References(t) => {
                return target_last(t);
            },
            FeatureSpecialization::Redefines(ts) => {
                if ts.len() > 0 {
                    return target_last(&ts[0]);
                }
            },
            _ => {},
        }
        k += 1;
    }
    None
}

/// The span from the first to the last name of a qualified name.
#[verifier::opaque]
pub open spec fn qn_span_spec(qn: QualifiedName) -> Span {
    if qn.segments@.len() > 0 {
        Span {
            start: qn.segments@[0].span.start,
            end: qn.segments@[qn.segments@.len() - 1].span.end,
        }
    } else {
        Span { start: 0, end: 0 }
    }
}

pub fn qn_span(qn: &QualifiedName) -> (r: Span)
    ensures
        r == qn_span_spec(*qn),
{
    proof {
        reveal(qn_span_spec);
    }
    let n: usize = qn.segments.len();
    if n > 0 {
        Span { start: qn.segments[0].span.start, end: qn.segments[n - 1].span.end }
    } else {
        Span { start: 0, end: 0 }
    }
}

/// The span a reference covers.
#[verifier::opaque]
pub open spec fn target_span_spec(t: TargetRef) -> Span {
    match t {
        TargetRef::Name(qn) => qn_span_spec(qn),
        TargetRef::Chain(links) => if links@.len() > 0 {
            Span {
                start: qn_span_spec(links@[0]).start,
                end: qn_span_spec(links@[links@.len() - 1]).end,
            }
        } else {
            Span { start: 0, end: 0 }
        },
    }
}

pub fn target_span(t: &TargetRef) -> (r: Span)
    ensures
        r == target_span_spec(*t),
{
    proof {
        reveal(target_span_spec);
    }
    match t {
        TargetRef::Name(qn) => qn_span(qn),
        TargetRef::Chain(links) => {
            let n: usize = links.len();
            if n > 0 {
                Span { start: qn_span(&links[0]).start, end: qn_span(&links[n - 1]).end }
            } else {
                Span { start: 0, end: 0 }
            }
        },
    }
}

/// Whether a reference spells nothing: the unwritten end of a succession.
#[verifier::opaque]
pub open spec fn is_empty_target_spec(t: TargetRef) -> bool {
    match t {
        TargetRef::Name(_) => false,
        TargetRef::Chain(links) => links@.len() == 0,
    }
}

pub fn is_empty_target(t: &TargetRef) -> (r: bool)
    ensures
        r == is_empty_target_spec(*t),
{
    proof {
        reveal(is_empty_target_spec);
    }
    match t {
        TargetRef::Name(_) => false,
        TargetRef::Chain(links) => links.len() == 0,
    }
}

/// A declared name as a qualified name of its own.
#[verifier::opaque]
pub open spec fn own_name_qn_spec(n: Name) -> QnV {
    QnV { is_global: false, segments: seq![n@], span: n.span }
}

pub fn own_name_qn(n: &Name) -> (r: QualifiedName)
    ensures
        r@ == own_name_qn_spec(*n),
{
    proof {
        reveal(own_name_qn_spec);
    }
    let mut segments: Vec<Name> = Vec::new();
    segments.push(n.duplicate());
    let r = QualifiedName { is_global: false, segments, span: n.span };
    assert(r@.segments =~= seq![n@]);
    r
}

/// The names of all links, in order.
pub open spec fn flat_segments(links: Seq<QualifiedName>) -> Seq<NameV>
    decreases links.len(),
{
    if links.len() == 0 {
        Seq::empty()
    } else {
        flat_segments(links.drop_last()) + names_view(links.last().segments@)
    }
}

/// A reference as one flat qualified name, the links of a chain
/// concatenated.
#[verifier::opaque]
pub open spec fn flat_target_qn_spec(t: TargetRef) -> Option<QnV> {
    match t {
        TargetRef::Name(qn) => Some(qn@),
        TargetRef::Chain(links) => if links@.len() > 0 {
            Some(
                QnV {
                    is_global: links@[0].is_global,
                    segments: flat_segments(links@),
                    span: links@[0].span,
                },
            )
        } else {
            None
        },
    }
}

pub open spec fn opt_qn(q: Option<QualifiedName>) -> Option<QnV> {
    match q {
        Some(x) => Some(x@),
        None => None,
    }
}

fn append_names(out: &mut Vec<Name>, more: &Vec<Name>)
    ensures
        names_view(final(out)@) == names_view(old(out)@) + names_view(more@),
{
    let mut i: usize = 0;
    while i < more.len()
        invariant
            i <= more@.len(),
            names_view(out@) =~= names_view(old(out)@) + names_view(more@).subrange(0, i as int),
        decreases more@.len() - i,
    {
        let ghost before = names_view(out@);
        out.push(more[i].duplicate());
        assert(names_view(out@) =~= before.push(more@[i as int]@));
        i += 1;
        assert(names_view(more@).subrange(0, i as int) =~= names_view(more@).subrange(
            0,
            i - 1,
        ).push(more@[i - 1]@));
    }
    assert(names_view(more@).subrange(0, more@.len() as int) =~= names_view(more@));
}

pub fn flat_target_qn(t: &TargetRef) -> (r: Option<QualifiedName>)
    ensures
        opt_qn(r) == flat_target_qn_spec(*t),
{
    proof {
        reveal(flat_target_qn_spec);
    }
    match t {
        TargetRef::Name(qn) => Some(qn.duplicate()),
        TargetRef::Chain(links) => {
            if links.len() == 0 {
                return None;
            }
            let mut segments: Vec<Name> = Vec::new();
            let mut i: usize = 0;
            assert(names_view(segments@) =~= flat_segments(links@.subrange(0, 0)));
            while i < links.len()
                invariant
                    i <= links@.len(),
                    names_view(segments@) == flat_segments(links@.subrange(0, i as int)),
                decreases links@.len() - i,
            {
                proof {
                    reveal(flat_target_qn_spec);
                }
                append_names(&mut segments, &links[i].segments);
                i += 1;
                assert(links@.subrange(0, i as int).drop_last() =~= links@.subrange(0, i - 1));
            }
            assert(links@.subrange(0, links@.len() as int) =~= links@);
            Some(
                QualifiedName { is_global: links[0].is_global, segments, span: links[0].span },
            )
        },
    }
}

/// The left spine of a feature-chain expression as link names, where it is
/// a plain name chain: a cast counts as the type it casts to.
#[verifier::opaque]
pub open spec fn chain_spine_spec(e: Expr) -> Option<Seq<QnV>>
    decreases e,
{
    match e.kind {
        ExprKind::Ref(qn) => Some(seq![qn@]),
        ExprKind::Classification { op, operand, ty } => match ty {
            TargetRef::Name(qn) => if op == ClassificationOp::As {
                Some(seq![qn@])
            } else {
                None
            },
            TargetRef::Chain(_) => None,
        },
        ExprKind::ChainStep { target, member } => match chain_spine_spec(*target) {
            Some(spine) => match member {
                TargetRef::Name(qn) => if qn.is_global {
                    None
                } else {
                    Some(spine.push(qn@))
                },
                TargetRef::Chain(_) => None,
            },
            None => None,
        },
        _ => None,
    }
}

pub fn chain_spine(e: &Expr) -> (r: Option<Vec<QualifiedName>>)
    ensures
        crate::state::opt_chain(r) == chain_spine_spec(*e),
    decreases e,
{
    proof {
        reveal(chain_spine_spec);
    }
    match &e.kind {
        ExprKind::Ref(qn) => {
            let mut v: Vec<QualifiedName> = Vec::new();
            v.push(qn.duplicate());
            assert(qns_view(v@) =~= seq![qn@]);
            Some(v)
        },
        ExprKind::Classification { op, operand, ty } => match ty {
            TargetRef::Name(qn) => {
                if *op == ClassificationOp::As {
                    let mut v: Vec<QualifiedName> = Vec::new();
                    v.push(qn.duplicate());
                    assert(qns_view(v@) =~= seq![qn@]);
                    Some(v)
                } else {
                    None
                }
            },
            TargetRef::Chain(_) => None,
        },
        ExprKind::ChainStep { target, member } => match chain_spine(target) {
            Some(mut spine) => match member {
                TargetRef::Name(qn) => {
                    if qn.is_global {
                        None
                    } else {
                        let ghost before = qns_view(spine@);
                        spine.push(qn.duplicate());
                        assert(qns_view(spine@) =~= before.push(qn@));
                        Some(spine)
                    }
                },
                TargetRef::Chain(_) => None,
            },
            None => None,
        },
        _ => None,
    }
}

/// Whether a usage prefix says nothing.
#[verifier::opaque]
pub open spec fn default_prefix_spec(p: UsagePrefix) -> bool {
    &&& p.direction is None
    &&& !p.is_derived
    &&& !p.is_abstract
    &&& !p.is_variation
    &&& !p.is_constant
    &&& !p.is_end
    &&& !p.is_ref
    &&& !p.is_individual
    &&& p.portion is None
    &&& !p.is_variant
    &&& p.metadata@.len() == 0
    &&& p.end_cross is None
    &&& !p.is_composite
    &&& !p.is_portion
    &&& !p.is_variable
    &&& !p.is_type_member
}

pub fn default_prefix(p: &UsagePrefix) -> (r: bool)
    ensures
        r == default_prefix_spec(*p),
{
    proof {
        reveal(default_prefix_spec);
    }
    p.direction.is_none() && !p.is_derived && !p.is_abstract && !p.is_variation && !p.is_constant
        && !p.is_end && !p.is_ref && !p.is_individual && p.portion.is_none() && !p.is_variant
        && p.metadata.len() == 0 && p.end_cross.is_none() && !p.is_composite && !p.is_portion
        && !p.is_variable && !p.is_type_member
}

/// Whether a prefix says `end` and nothing else.
pub open spec fn bare_end_prefix(p: UsagePrefix) -> bool {
    &&& p.is_end
    &&& p.direction is None
    &&& !p.is_derived
    &&& !p.is_abstract
    &&& !p.is_variation
    &&& !p.is_constant
    &&& !p.is_ref
    &&& !p.is_individual
    &&& p.portion is None
    &&& !p.is_variant
    &&& p.metadata@.len() == 0
    &&& p.end_cross is None
    &&& !p.is_composite
    &&& !p.is_portion
    &&& !p.is_variable
    &&& !p.is_type_member
}

/// The connected feature of a bare end member (`end name? ::> target;` with
/// nothing else), where the member is one.
#[verifier::opaque]
pub open spec fn bare_end_target(m: Member) -> Option<TargetRef> {
    match m.kind {
        MemberKind::Usage(u) => if bare_end_prefix(u.prefix) && u.value is None && u.body is None
            && m.visibility is None && !m.leading_then && m.leading_then_multiplicity is None
            && u.declaration.id.short_name is None && !u.declaration.is_ordered
            && !u.declaration.is_nonunique && !u.declaration.is_sufficient
            && u.declaration.conjugates is None && u.declaration.chains is None
            && u.declaration.inverse_of is None && u.declaration.featured_by@.len() == 0
            && u.detail is Plain && u.declaration.specializations@.len() == 1 {
            match u.declaration.specializations@[0] {
                FeatureSpecialization::References(t) => Some(t),
                _ => None,
            }
        } else {
            None
        },
        _ => None,
    }
}

/// Whether the member is a bare end member.
pub open spec fn bare_end_spec(m: Member) -> bool {
    bare_end_target(m) is Some
}

/// The parts of a bare end member: its usage and its connected feature.
pub fn bare_end_parts(m: &Member) -> (r: Option<(&Usage, &TargetRef)>)
    ensures
        match r {
            Some((u, t)) => m.kind == MemberKind::Usage(*u) && bare_end_target(*m) == Some(*t),
            None => bare_end_target(*m) is None,
        },
{
    proof {
        reveal(bare_end_target);
    }
    match &m.kind {
        MemberKind::Usage(u) => {
            let p = &u.prefix;
            let d = &u.declaration;
            let plain = match &u.detail {
                UsageDetail::Plain => true,
                _ => false,
            };
            if p.is_end && p.direction.is_none() && !p.is_derived && !p.is_abstract
                && !p.is_variation && !p.is_constant && !p.is_ref && !p.is_individual
                && p.portion.is_none() && !p.is_variant && p.metadata.len() == 0
                && p.end_cross.is_none() && !p.is_composite && !p.is_portion && !p.is_variable
                && !p.is_type_member && u.value.is_none() && u.body.is_none()
                && m.visibility.is_none() && !m.leading_then
                && m.leading_then_multiplicity.is_none() && d.id.short_name.is_none()
                && !d.is_ordered && !d.is_nonunique && !d.is_sufficient && d.conjugates.is_none()
                && d.chains.is_none() && d.inverse_of.is_none() && d.featured_by.len() == 0
                && plain && d.specializations.len() == 1 {
                match &d.specializations[0] {
                    FeatureSpecialization::References(t) => Some((u, t)),
                    _ => None,
                }
            } else {
                None
            }
        },
        _ => None,
    }
}

pub fn bare_end(m: &Member) -> (r: bool)
    ensures
        r == bare_end_spec(*m),
{
    bare_end_parts(m).is_some()
}

/// The metaclass name of a bare `@M;` member, where the usage is one: it
/// means what `#M` prefix metadata means.
#[verifier::opaque]
pub open spec fn plain_metadata_spec(u: Usage) -> Option<QnV> {
    if u.kind == UsageKind::Metadata && default_prefix_spec(u.prefix) && u.value is None
        && (u.body is None || u.body->0@.len() == 0) && u.declaration.multiplicity is None
        && !u.declaration.is_ordered && !u.declaration.is_nonunique && u.declaration.id.name is None
        && u.declaration.id.short_name is None && u.declaration.specializations@.len() == 1 {
        match u.detail {
            UsageDetail::Metadata { about } => if about@.len() == 0 {
                match u.declaration.specializations@[0] {
                    FeatureSpecialization::TypedBy(types) => if types@.len() == 1
                        && !types@[0].is_conjugated {
                        match types@[0].target {
                            TargetRef::Name(qn) => Some(qn@),
                            TargetRef::Chain(_) => None,
                        }
                    } else {
                        None
                    },
                    _ => None,
                }
            } else {
                None
            },
            _ => None,
        }
    } else {
        None
    }
}

pub fn plain_metadata(u: &Usage) -> (r: Option<&QualifiedName>)
    ensures
        match r {
            Some(q) => plain_metadata_spec(*u) == Some(q@),
            None => plain_metadata_spec(*u) is None,
        },
{
    proof {
        reveal(plain_metadata_spec);
    }
    let empty_body = match &u.body {
        Some(b) => b.len() == 0,
        None => true,
    };
    let d = &u.declaration;
    if u.kind == UsageKind::Metadata && default_prefix(&u.prefix) && u.value.is_none() && empty_body
        && d.multiplicity.is_none() && !d.is_ordered && !d.is_nonunique && d.id.name.is_none()
        && d.id.short_name.is_none() && d.specializations.len() == 1 {
        match &u.detail {
            UsageDetail::Metadata { about } => {
                if about.len() == 0 {
                    match &d.specializations[0] {
                        FeatureSpecialization::TypedBy(types) => {
                            if types.len() == 1 && !types[0].is_conjugated {
                                match &types[0].target {
                                    TargetRef::Name(qn) => Some(qn),
                                    TargetRef::Chain(_) => None,
                                }
                            } else {
                                None
                            }
                        },
                        _ => None,
                    }
                } else {
                    None
                }
            },
            _ => None,
        }
    } else {
        None
    }
}

/// The value of a decimal digit character.
pub open spec fn digit_value(c: char) -> Option<int> {
    if '0' <= c && c <= '9' {
        Some(c as int - '0' as int)
    } else {
        None
    }
}

/// The number a run of decimal digits from `k` on writes after `acc`;
/// nothing where another character stands or the number exceeds `limit`.
pub open spec fn digits_from(s: Seq<char>, k: int, acc: int, limit: int) -> Option<int>
    decreases s.len() - k,
{
    if 0 <= k < s.len() {
        match digit_value(s[k]) {
            Some(d) => if acc * 10 + d <= limit {
                digits_from(s, k + 1, acc * 10 + d, limit)
            } else {
                None
            },
            None => None,
        }
    } else {
        Some(acc)
    }
}

/// The integer a text writes: an optional sign and decimal digits, within
/// the signed 64-bit range.
#[verifier::opaque]
pub open spec fn literal_int_spec(s: Seq<char>) -> Option<i64> {
    if s.len() == 0 {
        None
    } else if s[0] == '-' {
        if s.len() == 1 {
            None
        } else {
            match digits_from(s, 1, 0, -(i64::MIN as int)) {
                Some(n) => Some((-n) as i64),
                None => None,
            }
        }
    } else {
        let start: int = if s[0] == '+' {
            1
        } else {
            0
        };
        if s.len() == start {
            None
        } else {
            match digits_from(s, start, 0, i64::MAX as int) {
                Some(n) => Some(n as i64),
                None => None,
            }
        }
    }
}

fn read_digits(v: &Vec<char>, from: usize, limit: i128) -> (r: Option<i128>)
    requires
        from <= v@.len(),
        0 <= limit <= 0x8000_0000_0000_0000,
    ensures
        match r {
            Some(n) => digits_from(v@, from as int, 0, limit as int) == Some(n as int) && 0 <= n
                <= limit,
            None => digits_from(v@, from as int, 0, limit as int) is None,
        },
{
    let mut acc: i128 = 0;
    let mut k: usize = from;
    while k < v.len()
        invariant
            from <= k <= v@.len(),
            0 <= acc <= limit <= 0x8000_0000_0000_0000,
            digits_from(v@, k as int, acc as int, limit as int) == digits_from(
                v@,
                from as int,
                0,
                limit as int,
            ),
        decreases v@.len() - k,
    {
        let c = v[k];
        if c < '0' || c > '9' {
            return None;
        }
        let d: i128 = (c as u32 - '0' as u32) as i128;
        if acc * 10 + d > limit {
            return None;
        }
        acc = acc * 10 + d;
        k += 1;
    }
    Some(acc)
}

/// The integer a literal's text writes, where it is one of the signed
/// 64-bit range.
pub fn literal_int(s: &str) -> (r: Option<i64>)
    ensures
        r == literal_int_spec(s@),
{
    proof {
        reveal(literal_int_spec);
    }
    let v = chars_of(s);
    if v.len() == 0 {
        return None;
    }
    if v[0] == '-' {
        if v.len() == 1 {
            return None;
        }
        return match read_digits(&v, 1, 0x8000_0000_0000_0000) {
            Some(n) => Some((-n) as i64),
            None => None,
        };
    }
    let start: usize = if v[0] == '+' {
        1
    } else {
        0
    };
    if v.len() == start {
        return None;
    }
    match read_digits(&v, start, 0x7fff_ffff_ffff_ffff) {
        Some(n) => Some(n as i64),
        None => None,
    }
}

} // verus!
