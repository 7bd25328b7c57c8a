//! Lists of elements and references: the steps that derived properties are
//! made of.
use crate::derive_base::{
    opt_ref_ok, opt_ref_view, refs_ok, refs_view, Derivation, RefV, Reference, DV,
};
use crate::state::{all_below, below};
use vstd::prelude::*;

verus! {

impl DV {
    /// An element, where it is of a kind.
    pub open spec fn if_kind(self, x: usize, kind: Seq<char>) -> Option<usize> {
        if self.is_kind(x, kind) {
            Some(x)
        } else {
            None
        }
    }
}

impl Derivation {
    /// An element, where it is of a kind.
    pub fn if_kind(&self, x: usize, kind: &str) -> (r: Option<usize>)
        requires
            self.ok(),
            x < self@.n(),
        ensures
            r == self@.if_kind(x, kind@),
            below(r, self@.n()),
    {
        if self.is_kind(x, kind) {
            Some(x)
        } else {
            None
        }
    }
}

impl DV {
    /// The elements of a kind.
    pub open spec fn of_kind_from(self, s: Seq<usize>, kind: Seq<char>, k: int) -> Seq<usize>
        decreases s.len() - k,
        when 0 <= k
    {
        if k >= s.len() {
            Seq::empty()
        } else {
            match self.if_kind(s[k], kind) {
                Some(y) => seq![y] + self.of_kind_from(s, kind, k + 1),
                None => self.of_kind_from(s, kind, k + 1),
            }
        }
    }

    #[verifier::opaque]
    pub open spec fn of_kind(self, s: Seq<usize>, kind: Seq<char>) -> Seq<usize> {
        self.of_kind_from(s, kind, 0)
    }
}

impl Derivation {
    /// The elements of a kind.
    pub fn of_kind(&self, list: &Vec<usize>, kind: &str) -> (r: Vec<usize>)
        requires
            self.ok(),
            all_below(list@, self@.n()),
        ensures
            r@ == self@.of_kind(list@, kind@),
            all_below(r@, self@.n()),
    {
        proof {
            reveal(DV::of_kind);
        }
        let mut out: Vec<usize> = Vec::new();
        let n: usize = list.len();
        let mut k: usize = 0;
        let ghost whole = self@.of_kind_from(list@, kind@, 0);
        assert(out@ + whole =~= whole);
        while k < n
            invariant
                self.ok(),
                all_below(list@, self@.n()),
                n == list@.len(),
                k <= n,
                all_below(out@, self@.n()),
                out@ + self@.of_kind_from(list@, kind@, k as int) == whole,
            decreases n - k,
        {
            let x: usize = list[k];
            let ghost before = out@;
            let ghost rest = self@.of_kind_from(list@, kind@, k + 1);
            if let Some(y) = self.if_kind(x, kind) {
                let ghost yv = y;
                out.push(y);
                assert(out@ =~= before.push(yv));
                assert(before + (seq![yv] + rest) =~= out@ + rest);
            }
            k += 1;
        }
        assert(out@ + Seq::<usize>::empty() =~= out@);
        out
    }
}

impl DV {
    /// An element, where it is not of a kind.
    pub open spec fn if_not_kind(self, x: usize, kind: Seq<char>) -> Option<usize> {
        if !self.is_kind(x, kind) {
            Some(x)
        } else {
            None
        }
    }
}

impl Derivation {
    /// An element, where it is not of a kind.
    pub fn if_not_kind(&self, x: usize, kind: &str) -> (r: Option<usize>)
        requires
            self.ok(),
            x < self@.n(),
        ensures
            r == self@.if_not_kind(x, kind@),
            below(r, self@.n()),
    {
        if !self.is_kind(x, kind) {
            Some(x)
        } else {
            None
        }
    }
}

impl DV {
    /// The elements not of a kind.
    pub open spec fn not_kind_from(self, s: Seq<usize>, kind: Seq<char>, k: int) -> Seq<usize>
        decreases s.len() - k,
        when 0 <= k
    {
        if k >= s.len() {
            Seq::empty()
        } else {
            match self.if_not_kind(s[k], kind) {
                Some(y) => seq![y] + self.not_kind_from(s, kind, k + 1),
                None => self.not_kind_from(s, kind, k + 1),
            }
        }
    }

    #[verifier::opaque]
    pub open spec fn not_kind(self, s: Seq<usize>, kind: Seq<char>) -> Seq<usize> {
        self.not_kind_from(s, kind, 0)
    }
}

impl Derivation {
    /// The elements not of a kind.
    pub fn not_kind(&self, list: &Vec<usize>, kind: &str) -> (r: Vec<usize>)
        requires
            self.ok(),
            all_below(list@, self@.n()),
        ensures
            r@ == self@.not_kind(list@, kind@),
            all_below(r@, self@.n()),
    {
        proof {
            reveal(DV::not_kind);
        }
        let mut out: Vec<usize> = Vec::new();
        let n: usize = list.len();
        let mut k: usize = 0;
        let ghost whole = self@.not_kind_from(list@, kind@, 0);
        assert(out@ + whole =~= whole);
        while k < n
            invariant
                self.ok(),
                all_below(list@, self@.n()),
                n == list@.len(),
                k <= n,
                all_below(out@, self@.n()),
                out@ + self@.not_kind_from(list@, kind@, k as int) == whole,
            decreases n - k,
        {
            let x: usize = list[k];
            let ghost before = out@;
            let ghost rest = self@.not_kind_from(list@, kind@, k + 1);
            if let Some(y) = self.if_not_kind(x, kind) {
                let ghost yv = y;
                out.push(y);
                assert(out@ =~= before.push(yv));
                assert(before + (seq![yv] + rest) =~= out@ + rest);
            }
            k += 1;
        }
        assert(out@ + Seq::<usize>::empty() =~= out@);
        out
    }
}

impl DV {
    /// An element, where its metaclass is just this one.
    pub open spec fn if_type(self, x: usize, ty: Seq<char>) -> Option<usize> {
        if self.is_type(x, ty) {
            Some(x)
        } else {
            None
        }
    }
}

impl Derivation {
    /// An element, where its metaclass is just this one.
    pub fn if_type(&self, x: usize, ty: &str) -> (r: Option<usize>)
        requires
            self.ok(),
            x < self@.n(),
        ensures
            r == self@.if_type(x, ty@),
            below(r, self@.n()),
    {
        if self.is_type(x, ty) {
            Some(x)
        } else {
            None
        }
    }
}

impl DV {
    /// The elements of one metaclass.
    pub open spec fn of_type_from(self, s: Seq<usize>, ty: Seq<char>, k: int) -> Seq<usize>
        decreases s.len() - k,
        when 0 <= k
    {
        if k >= s.len() {
            Seq::empty()
        } else {
            match self.if_type(s[k], ty) {
                Some(y) => seq![y] + self.of_type_from(s, ty, k + 1),
                None => self.of_type_from(s, ty, k + 1),
            }
        }
    }

    #[verifier::opaque]
    pub open spec fn of_type(self, s: Seq<usize>, ty: Seq<char>) -> Seq<usize> {
        self.of_type_from(s, ty, 0)
    }
}

impl Derivation {
    /// The elements of one metaclass.
    pub fn of_type(&self, list: &Vec<usize>, ty: &str) -> (r: Vec<usize>)
        requires
            self.ok(),
            all_below(list@, self@.n()),
        ensures
            r@ == self@.of_type(list@, ty@),
            all_below(r@, self@.n()),
    {
        proof {
            reveal(DV::of_type);
        }
        let mut out: Vec<usize> = Vec::new();
        let n: usize = list.len();
        let mut k: usize = 0;
        let ghost whole = self@.of_type_from(list@, ty@, 0);
        assert(out@ + whole =~= whole);
        while k < n
            invariant
                self.ok(),
                all_below(list@, self@.n()),
                n == list@.len(),
                k <= n,
                all_below(out@, self@.n()),
                out@ + self@.of_type_from(list@, ty@, k as int) == whole,
            decreases n - k,
        {
            let x: usize = list[k];
            let ghost before = out@;
            let ghost rest = self@.of_type_from(list@, ty@, k + 1);
            if let Some(y) = self.if_type(x, ty) {
                let ghost yv = y;
                out.push(y);
                assert(out@ =~= before.push(yv));
                assert(before + (seq![yv] + rest) =~= out@ + rest);
            }
            k += 1;
        }
        assert(out@ + Seq::<usize>::empty() =~= out@);
        out
    }
}

impl DV {
    /// An element, where a property of it reads so.
    pub open spec fn if_text(self, x: usize, key: Seq<char>, value: Seq<char>) -> Option<usize> {
        if self.text_is(x, key, value) {
            Some(x)
        } else {
            None
        }
    }
}

impl Derivation {
    /// An element, where a property of it reads so.
    pub fn if_text(&self, x: usize, key: &str, value: &str) -> (r: Option<usize>)
        requires
            self.ok(),
            x < self@.n(),
        ensures
            r == self@.if_text(x, key@, value@),
            below(r, self@.n()),
    {
        if self.text_is(x, key, value) {
            Some(x)
        } else {
            None
        }
    }
}

impl DV {
    /// The elements with a property that reads so.
    pub open spec fn with_text_from(
        self,
        s: Seq<usize>,
        key: Seq<char>,
        value: Seq<char>,
        k: int,
    ) -> Seq<usize>
        decreases s.len() - k,
        when 0 <= k
    {
        if k >= s.len() {
            Seq::empty()
        } else {
            match self.if_text(s[k], key, value) {
                Some(y) => seq![y] + self.with_text_from(s, key, value, k + 1),
                None => self.with_text_from(s, key, value, k + 1),
            }
        }
    }

    #[verifier::opaque]
    pub open spec fn with_text(
        self,
        s: Seq<usize>,
        key: Seq<char>,
        value: Seq<char>,
    ) -> Seq<usize> {
        self.with_text_from(s, key, value, 0)
    }
}

impl Derivation {
    /// The elements with a property that reads so.
    pub fn with_text(&self, list: &Vec<usize>, key: &str, value: &str) -> (r: Vec<usize>)
        requires
            self.ok(),
            all_below(list@, self@.n()),
        ensures
            r@ == self@.with_text(list@, key@, value@),
            all_below(r@, self@.n()),
    {
        proof {
            reveal(DV::with_text);
        }
        let mut out: Vec<usize> = Vec::new();
        let n: usize = list.len();
        let mut k: usize = 0;
        let ghost whole = self@.with_text_from(list@, key@, value@, 0);
        assert(out@ + whole =~= whole);
        while k < n
            invariant
                self.ok(),
                all_below(list@, self@.n()),
                n == list@.len(),
                k <= n,
                all_below(out@, self@.n()),
                out@ + self@.with_text_from(list@, key@, value@, k as int) == whole,
            decreases n - k,
        {
            let x: usize = list[k];
            let ghost before = out@;
            let ghost rest = self@.with_text_from(list@, key@, value@, k + 1);
            if let Some(y) = self.if_text(x, key, value) {
                let ghost yv = y;
                out.push(y);
                assert(out@ =~= before.push(yv));
                assert(before + (seq![yv] + rest) =~= out@ + rest);
            }
            k += 1;
        }
        assert(out@ + Seq::<usize>::empty() =~= out@);
        out
    }
}

impl DV {
    /// An element, where a property of it is true.
    pub open spec fn if_flag(self, x: usize, key: Seq<char>) -> Option<usize> {
        if self.flag(x, key) {
            Some(x)
        } else {
            None
        }
    }
}

impl Derivation {
    /// An element, where a property of it is true.
    pub fn if_flag(&self, x: usize, key: &str) -> (r: Option<usize>)
        requires
            self.ok(),
            x < self@.n(),
        ensures
            r == self@.if_flag(x, key@),
            below(r, self@.n()),
    {
        if self.flag(x, key) {
            Some(x)
        } else {
            None
        }
    }
}

impl DV {
    /// The elements with a property that is true.
    pub open spec fn flagged_from(self, s: Seq<usize>, key: Seq<char>, k: int) -> Seq<usize>
        decreases s.len() - k,
        when 0 <= k
    {
        if k >= s.len() {
            Seq::empty()
        } else {
            match self.if_flag(s[k], key) {
                Some(y) => seq![y] + self.flagged_from(s, key, k + 1),
                None => self.flagged_from(s, key, k + 1),
            }
        }
    }

    #[verifier::opaque]
    pub open spec fn flagged(self, s: Seq<usize>, key: Seq<char>) -> Seq<usize> {
        self.flagged_from(s, key, 0)
    }
}

impl Derivation {
    /// The elements with a property that is true.
    pub fn flagged(&self, list: &Vec<usize>, key: &str) -> (r: Vec<usize>)
        requires
            self.ok(),
            all_below(list@, self@.n()),
        ensures
            r@ == self@.flagged(list@, key@),
            all_below(r@, self@.n()),
    {
        proof {
            reveal(DV::flagged);
        }
        let mut out: Vec<usize> = Vec::new();
        let n: usize = list.len();
        let mut k: usize = 0;
        let ghost whole = self@.flagged_from(list@, key@, 0);
        assert(out@ + whole =~= whole);
        while k < n
            invariant
                self.ok(),
                all_below(list@, self@.n()),
                n == list@.len(),
                k <= n,
                all_below(out@, self@.n()),
                out@ + self@.flagged_from(list@, key@, k as int) == whole,
            decreases n - k,
        {
            let x: usize = list[k];
            let ghost before = out@;
            let ghost rest = self@.flagged_from(list@, key@, k + 1);
            if let Some(y) = self.if_flag(x, key) {
                let ghost yv = y;
                out.push(y);
                assert(out@ =~= before.push(yv));
                assert(before + (seq![yv] + rest) =~= out@ + rest);
            }
            k += 1;
        }
        assert(out@ + Seq::<usize>::empty() =~= out@);
        out
    }
}

impl DV {
    /// The first element a relationship owns.
    pub open spec fn first_child(self, x: usize) -> Option<usize> {
        if self.children(x).len() > 0 {
            Some(self.children(x)[0])
        } else {
            None
        }
    }
}

impl Derivation {
    /// The first element a relationship owns.
    pub fn first_child(&self, x: usize) -> (r: Option<usize>)
        requires
            self.ok(),
            x < self@.n(),
        ensures
            r == self@.first_child(x),
            below(r, self@.n()),
    {
        let v: Vec<usize> = self.children(x);
        if v.len() > 0 {
            Some(v[0])
        } else {
            None
        }
    }
}

impl DV {
    /// The first element each relationship owns.
    pub open spec fn firsts_from(self, s: Seq<usize>, k: int) -> Seq<usize>
        decreases s.len() - k,
        when 0 <= k
    {
        if k >= s.len() {
            Seq::empty()
        } else {
            match self.first_child(s[k]) {
                Some(y) => seq![y] + self.firsts_from(s, k + 1),
                None => self.firsts_from(s, k + 1),
            }
        }
    }

    #[verifier::opaque]
    pub open spec fn firsts(self, s: Seq<usize>) -> Seq<usize> {
        self.firsts_from(s, 0)
    }
}

impl Derivation {
    /// The first element each relationship owns.
    pub fn firsts(&self, list: &Vec<usize>) -> (r: Vec<usize>)
        requires
            self.ok(),
            all_below(list@, self@.n()),
        ensures
            r@ == self@.firsts(list@),
            all_below(r@, self@.n()),
    {
        proof {
            reveal(DV::firsts);
        }
        let mut out: Vec<usize> = Vec::new();
        let n: usize = list.len();
        let mut k: usize = 0;
        let ghost whole = self@.firsts_from(list@, 0);
        assert(out@ + whole =~= whole);
        while k < n
            invariant
                self.ok(),
                all_below(list@, self@.n()),
                n == list@.len(),
                k <= n,
                all_below(out@, self@.n()),
                out@ + self@.firsts_from(list@, k as int) == whole,
            decreases n - k,
        {
            let x: usize = list[k];
            let ghost before = out@;
            let ghost rest = self@.firsts_from(list@, k + 1);
            if let Some(y) = self.first_child(x) {
                let ghost yv = y;
                out.push(y);
                assert(out@ =~= before.push(yv));
                assert(before + (seq![yv] + rest) =~= out@ + rest);
            }
            k += 1;
        }
        assert(out@ + Seq::<usize>::empty() =~= out@);
        out
    }
}

impl DV {
    /// The references that a property of each holds.
    pub open spec fn links_from(self, s: Seq<usize>, key: Seq<char>, k: int) -> Seq<RefV>
        decreases s.len() - k,
        when 0 <= k
    {
        if k >= s.len() {
            Seq::empty()
        } else {
            match self.link(s[k], key) {
                Some(y) => seq![y] + self.links_from(s, key, k + 1),
                None => self.links_from(s, key, k + 1),
            }
        }
    }

    #[verifier::opaque]
    pub open spec fn links(self, s: Seq<usize>, key: Seq<char>) -> Seq<RefV> {
        self.links_from(s, key, 0)
    }
}

impl Derivation {
    /// The references that a property of each holds.
    pub fn links(&self, list: &Vec<usize>, key: &str) -> (r: Vec<Reference>)
        requires
            self.ok(),
            all_below(list@, self@.n()),
        ensures
            refs_view(r@) == self@.links(list@, key@),
            refs_ok(refs_view(r@), self@.n()),
    {
        proof {
            reveal(DV::links);
        }
        let mut out: Vec<Reference> = Vec::new();
        let n: usize = list.len();
        let mut k: usize = 0;
        let ghost whole = self@.links_from(list@, key@, 0);
        assert(refs_view(out@) =~= Seq::<RefV>::empty());
        assert(refs_view(out@) + whole =~= whole);
        while k < n
            invariant
                self.ok(),
                all_below(list@, self@.n()),
                n == list@.len(),
                k <= n,
                refs_ok(refs_view(out@), self@.n()),
                refs_view(out@) + self@.links_from(list@, key@, k as int) == whole,
            decreases n - k,
        {
            let x: usize = list[k];
            let ghost before = refs_view(out@);
            let ghost rest = self@.links_from(list@, key@, k + 1);
            if let Some(y) = self.link(x, key) {
                let ghost yv = y@;
                out.push(y);
                assert(refs_view(out@) =~= before.push(yv));
                assert(before + (seq![yv] + rest) =~= refs_view(out@) + rest);
            }
            k += 1;
        }
        assert(refs_view(out@) + Seq::<RefV>::empty() =~= refs_view(out@));
        out
    }
}

impl DV {
    /// The model elements that a property of each names.
    pub open spec fn targets_from(self, s: Seq<usize>, key: Seq<char>, k: int) -> Seq<usize>
        decreases s.len() - k,
        when 0 <= k
    {
        if k >= s.len() {
            Seq::empty()
        } else {
            match self.target(s[k], key) {
                Some(y) => seq![y] + self.targets_from(s, key, k + 1),
                None => self.targets_from(s, key, k + 1),
            }
        }
    }

    #[verifier::opaque]
    pub open spec fn targets(self, s: Seq<usize>, key: Seq<char>) -> Seq<usize> {
        self.targets_from(s, key, 0)
    }
}

impl Derivation {
    /// The model elements that a property of each names.
    pub fn targets(&self, list: &Vec<usize>, key: &str) -> (r: Vec<usize>)
        requires
            self.ok(),
            all_below(list@, self@.n()),
        ensures
            r@ == self@.targets(list@, key@),
            all_below(r@, self@.n()),
    {
        proof {
            reveal(DV::targets);
        }
        let mut out: Vec<usize> = Vec::new();
        let n: usize = list.len();
        let mut k: usize = 0;
        let ghost whole = self@.targets_from(list@, key@, 0);
        assert(out@ + whole =~= whole);
        while k < n
            invariant
                self.ok(),
                all_below(list@, self@.n()),
                n == list@.len(),
                k <= n,
                all_below(out@, self@.n()),
                out@ + self@.targets_from(list@, key@, k as int) == whole,
            decreases n - k,
        {
            let x: usize = list[k];
            let ghost before = out@;
            let ghost rest = self@.targets_from(list@, key@, k + 1);
            if let Some(y) = self.target(x, key) {
                let ghost yv = y;
                out.push(y);
                assert(out@ =~= before.push(yv));
                assert(before + (seq![yv] + rest) =~= out@ + rest);
            }
            k += 1;
        }
        assert(out@ + Seq::<usize>::empty() =~= out@);
        out
    }
}

impl DV {
    /// The member of a membership: the one it owns, or else the one it names.
    pub open spec fn member_element(self, x: usize) -> Option<RefV> {
        match self.first_child(x) {
            Some(k) => Some(RefV::Element(k)),
            None => self.link(x, "memberElement"@),
        }
    }
}

impl Derivation {
    /// The member of a membership: the one it owns, or else the one it names.
    pub fn member_element(&self, x: usize) -> (r: Option<Reference>)
        requires
            self.ok(),
            x < self@.n(),
        ensures
            opt_ref_view(r) == self@.member_element(x),
            opt_ref_ok(opt_ref_view(r), self@.n()),
    {
        match self.first_child(x) {
            Some(k) => Some(Reference::Element(k)),
            None => self.link(x, "memberElement"),
        }
    }
}

impl DV {
    /// The members of memberships.
    pub open spec fn member_elements_from(self, s: Seq<usize>, k: int) -> Seq<RefV>
        decreases s.len() - k,
        when 0 <= k
    {
        if k >= s.len() {
            Seq::empty()
        } else {
            match self.member_element(s[k]) {
                Some(y) => seq![y] + self.member_elements_from(s, k + 1),
                None => self.member_elements_from(s, k + 1),
            }
        }
    }

    #[verifier::opaque]
    pub open spec fn member_elements(self, s: Seq<usize>) -> Seq<RefV> {
        self.member_elements_from(s, 0)
    }
}

impl Derivation {
    /// The members of memberships.
    pub fn member_elements(&self, list: &Vec<usize>) -> (r: Vec<Reference>)
        requires
            self.ok(),
            all_below(list@, self@.n()),
        ensures
            refs_view(r@) == self@.member_elements(list@),
            refs_ok(refs_view(r@), self@.n()),
    {
        proof {
            reveal(DV::member_elements);
        }
        let mut out: Vec<Reference> = Vec::new();
        let n: usize = list.len();
        let mut k: usize = 0;
        let ghost whole = self@.member_elements_from(list@, 0);
        assert(refs_view(out@) =~= Seq::<RefV>::empty());
        assert(refs_view(out@) + whole =~= whole);
        while k < n
            invariant
                self.ok(),
                all_below(list@, self@.n()),
                n == list@.len(),
                k <= n,
                refs_ok(refs_view(out@), self@.n()),
                refs_view(out@) + self@.member_elements_from(list@, k as int) == whole,
            decreases n - k,
        {
            let x: usize = list[k];
            let ghost before = refs_view(out@);
            let ghost rest = self@.member_elements_from(list@, k + 1);
            if let Some(y) = self.member_element(x) {
                let ghost yv = y@;
                out.push(y);
                assert(refs_view(out@) =~= before.push(yv));
                assert(before + (seq![yv] + rest) =~= refs_view(out@) + rest);
            }
            k += 1;
        }
        assert(refs_view(out@) + Seq::<RefV>::empty() =~= refs_view(out@));
        out
    }
}

impl DV {
    /// A reference as one to a kind: an element must conform, what lies outside the model passes.
    pub open spec fn cast(self, x: RefV, kind: Seq<char>) -> Option<RefV> {
        match x {
            RefV::Element(e) => if self.is_kind(e, kind) {
                Some(x)
            } else {
                None
            },
            _ => Some(x),
        }
    }
}

impl Derivation {
    /// A reference as one to a kind: an element must conform, what lies outside the model passes.
    pub fn cast(&self, x: &Reference, kind: &str) -> (r: Option<Reference>)
        requires
            self.ok(),
            x@.ok(self@.n()),
        ensures
            opt_ref_view(r) == self@.cast(x@, kind@),
            opt_ref_ok(opt_ref_view(r), self@.n()),
    {
        match x {
            Reference::Element(e) => if self.is_kind(*e, kind) {
                Some(Reference::Element(*e))
            } else {
                None
            },
            _ => Some(x.duplicate()),
        }
    }
}

impl DV {
    /// The references that can be ones to a kind.
    pub open spec fn cast_all_from(self, s: Seq<RefV>, kind: Seq<char>, k: int) -> Seq<RefV>
        decreases s.len() - k,
        when 0 <= k
    {
        if k >= s.len() {
            Seq::empty()
        } else {
            match self.cast(s[k], kind) {
                Some(y) => seq![y] + self.cast_all_from(s, kind, k + 1),
                None => self.cast_all_from(s, kind, k + 1),
            }
        }
    }

    #[verifier::opaque]
    pub open spec fn cast_all(self, s: Seq<RefV>, kind: Seq<char>) -> Seq<RefV> {
        self.cast_all_from(s, kind, 0)
    }
}

impl Derivation {
    /// The references that can be ones to a kind.
    pub fn cast_all(&self, list: &Vec<Reference>, kind: &str) -> (r: Vec<Reference>)
        requires
            self.ok(),
            refs_ok(refs_view(list@), self@.n()),
        ensures
            refs_view(r@) == self@.cast_all(refs_view(list@), kind@),
            refs_ok(refs_view(r@), self@.n()),
    {
        proof {
            reveal(DV::cast_all);
        }
        let mut out: Vec<Reference> = Vec::new();
        let n: usize = list.len();
        let mut k: usize = 0;
        let ghost whole = self@.cast_all_from(refs_view(list@), kind@, 0);
        assert(refs_view(out@) =~= Seq::<RefV>::empty());
        assert(refs_view(out@) + whole =~= whole);
        while k < n
            invariant
                self.ok(),
                refs_ok(refs_view(list@), self@.n()),
                n == list@.len(),
                k <= n,
                refs_ok(refs_view(out@), self@.n()),
                refs_view(out@) + self@.cast_all_from(refs_view(list@), kind@, k as int) == whole,
            decreases n - k,
        {
            let x: &Reference = &list[k];
            assert(refs_view(list@)[k as int] == x@);
            let ghost before = refs_view(out@);
            let ghost rest = self@.cast_all_from(refs_view(list@), kind@, k + 1);
            if let Some(y) = self.cast(x, kind) {
                let ghost yv = y@;
                out.push(y);
                assert(refs_view(out@) =~= before.push(yv));
                assert(before + (seq![yv] + rest) =~= refs_view(out@) + rest);
            }
            k += 1;
        }
        assert(refs_view(out@) + Seq::<RefV>::empty() =~= refs_view(out@));
        out
    }
}

impl DV {
    /// The model elements among references.
    pub open spec fn elements_from(self, s: Seq<RefV>, k: int) -> Seq<usize>
        decreases s.len() - k,
        when 0 <= k
    {
        if k >= s.len() {
            Seq::empty()
        } else {
            match s[k].elem() {
                Some(y) => seq![y] + self.elements_from(s, k + 1),
                None => self.elements_from(s, k + 1),
            }
        }
    }

    #[verifier::opaque]
    pub open spec fn elements(self, s: Seq<RefV>) -> Seq<usize> {
        self.elements_from(s, 0)
    }
}

impl Derivation {
    /// The model elements among references.
    pub fn elements(&self, list: &Vec<Reference>) -> (r: Vec<usize>)
        requires
            self.ok(),
            refs_ok(refs_view(list@), self@.n()),
        ensures
            r@ == self@.elements(refs_view(list@)),
            all_below(r@, self@.n()),
    {
        proof {
            reveal(DV::elements);
        }
        let mut out: Vec<usize> = Vec::new();
        let n: usize = list.len();
        let mut k: usize = 0;
        let ghost whole = self@.elements_from(refs_view(list@), 0);
        assert(out@ + whole =~= whole);
        while k < n
            invariant
                self.ok(),
                refs_ok(refs_view(list@), self@.n()),
                n == list@.len(),
                k <= n,
                all_below(out@, self@.n()),
                out@ + self@.elements_from(refs_view(list@), k as int) == whole,
            decreases n - k,
        {
            let x: &Reference = &list[k];
            assert(refs_view(list@)[k as int] == x@);
            let ghost before = out@;
            let ghost rest = self@.elements_from(refs_view(list@), k + 1);
            if let Some(y) = x.element() {
                let ghost yv = y;
                out.push(y);
                assert(out@ =~= before.push(yv));
                assert(before + (seq![yv] + rest) =~= out@ + rest);
            }
            k += 1;
        }
        assert(out@ + Seq::<usize>::empty() =~= out@);
        out
    }
}

pub open spec fn head(s: Seq<usize>) -> Option<usize> {
    nth(s, 0)
}

pub open spec fn nth(s: Seq<usize>, i: int) -> Option<usize> {
    if 0 <= i < s.len() {
        Some(s[i])
    } else {
        None
    }
}

pub open spec fn last(s: Seq<usize>) -> Option<usize> {
    if s.len() > 0 {
        Some(s.last())
    } else {
        None
    }
}

pub open spec fn nth_ref(s: Seq<RefV>, i: int) -> Option<RefV> {
    if 0 <= i < s.len() {
        Some(s[i])
    } else {
        None
    }
}

pub open spec fn last_ref(s: Seq<RefV>) -> Option<RefV> {
    if s.len() > 0 {
        Some(s.last())
    } else {
        None
    }
}

pub open spec fn tail_refs(s: Seq<RefV>) -> Seq<RefV> {
    if s.len() > 0 {
        s.drop_first()
    } else {
        s
    }
}

pub open spec fn unit(o: Option<usize>) -> Seq<usize> {
    match o {
        Some(x) => seq![x],
        None => Seq::empty(),
    }
}

pub open spec fn unit_ref(o: Option<RefV>) -> Seq<RefV> {
    match o {
        Some(x) => seq![x],
        None => Seq::empty(),
    }
}

/// Both lists, one after the other.
pub open spec fn joined(a: Seq<usize>, b: Seq<usize>) -> Seq<usize> {
    a + b
}

pub open spec fn joined_refs(a: Seq<RefV>, b: Seq<RefV>) -> Seq<RefV> {
    a + b
}

/// A list and what of another, from `k` on, it does not hold yet.
pub open spec fn united_from(a: Seq<usize>, b: Seq<usize>, k: int) -> Seq<usize>
    decreases b.len() - k,
    when 0 <= k
{
    if k >= b.len() {
        a
    } else {
        united_from(
            if a.contains(b[k]) {
                a
            } else {
                a.push(b[k])
            },
            b,
            k + 1,
        )
    }
}

pub open spec fn united(a: Seq<usize>, b: Seq<usize>) -> Seq<usize> {
    united_from(a, b, 0)
}

pub open spec fn united_refs_from(a: Seq<RefV>, b: Seq<RefV>, k: int) -> Seq<RefV>
    decreases b.len() - k,
    when 0 <= k
{
    if k >= b.len() {
        a
    } else {
        united_refs_from(
            if a.contains(b[k]) {
                a
            } else {
                a.push(b[k])
            },
            b,
            k + 1,
        )
    }
}

pub open spec fn united_refs(a: Seq<RefV>, b: Seq<RefV>) -> Seq<RefV> {
    united_refs_from(a, b, 0)
}

pub open spec fn as_refs(s: Seq<usize>) -> Seq<RefV> {
    s.map_values(|e: usize| RefV::Element(e))
}

pub open spec fn elem_of(r: Option<RefV>) -> Option<usize> {
    match r {
        Some(x) => x.elem(),
        None => None,
    }
}

pub open spec fn elem_ref(o: Option<usize>) -> Option<RefV> {
    match o {
        Some(e) => Some(RefV::Element(e)),
        None => None,
    }
}


pub fn get_nth(s: &Vec<usize>, i: usize) -> (r: Option<usize>)
    ensures
        r == nth(s@, i as int),
        forall|n: nat| all_below(s@, n) ==> #[trigger] below(r, n),
{
    if i < s.len() {
        Some(s[i])
    } else {
        None
    }
}

pub fn get_head(s: &Vec<usize>) -> (r: Option<usize>)
    ensures
        r == head(s@),
        forall|n: nat| all_below(s@, n) ==> #[trigger] below(r, n),
{
    get_nth(s, 0)
}

pub fn get_last(s: &Vec<usize>) -> (r: Option<usize>)
    ensures
        r == last(s@),
        forall|n: nat| all_below(s@, n) ==> #[trigger] below(r, n),
{
    let n: usize = s.len();
    if n > 0 {
        Some(s[n - 1])
    } else {
        None
    }
}

pub fn get_nth_ref(s: &Vec<Reference>, i: usize) -> (r: Option<Reference>)
    ensures
        opt_ref_view(r) == nth_ref(refs_view(s@), i as int),
        forall|n: nat| refs_ok(refs_view(s@), n) ==> #[trigger] opt_ref_ok(opt_ref_view(r), n),
{
    if i < s.len() {
        assert(refs_view(s@)[i as int] == s@[i as int]@);
        Some(s[i].duplicate())
    } else {
        None
    }
}

pub fn get_last_ref(s: &Vec<Reference>) -> (r: Option<Reference>)
    ensures
        opt_ref_view(r) == last_ref(refs_view(s@)),
        forall|n: nat| refs_ok(refs_view(s@), n) ==> #[trigger] opt_ref_ok(opt_ref_view(r), n),
{
    let n: usize = s.len();
    if n > 0 {
        assert(refs_view(s@)[n - 1] == s@[n - 1]@);
        Some(s[n - 1].duplicate())
    } else {
        None
    }
}

pub fn get_tail_refs(s: &Vec<Reference>) -> (r: Vec<Reference>)
    ensures
        refs_view(r@) == tail_refs(refs_view(s@)),
        forall|n: nat| #[trigger] refs_ok(refs_view(s@), n) ==> refs_ok(refs_view(r@), n),
{
    let mut out: Vec<Reference> = Vec::new();
    let n: usize = s.len();
    let mut k: usize = 1;
    while k < n
        invariant
            n == s@.len(),
            1 <= k,
            n > 0 ==> k <= n,
            n > 0 ==> refs_view(out@) == refs_view(s@).subrange(1, k as int),
            n == 0 ==> out@.len() == 0,
        decreases n - k,
    {
        let ghost before = refs_view(out@);
        let r: Reference = s[k].duplicate();
        out.push(r);
        assert(refs_view(out@) =~= before.push(r@));
        assert(refs_view(s@).subrange(1, k + 1) =~= before.push(s@[k as int]@));
        k += 1;
    }
    assert(refs_view(out@) =~= tail_refs(refs_view(s@)));
    assert forall|m: nat| #[trigger] refs_ok(refs_view(s@), m) implies refs_ok(refs_view(out@), m) by {
        assert forall|i: int| 0 <= i < refs_view(out@).len() implies (#[trigger] refs_view(out@)[i]).ok(m) by {
            assert(refs_view(out@)[i] == refs_view(s@)[i + 1]);
        }
    }
    out
}

pub fn make_unit(o: Option<usize>) -> (r: Vec<usize>)
    ensures
        r@ == unit(o),
        forall|n: nat| #[trigger] below(o, n) ==> all_below(r@, n),
{
    let mut out: Vec<usize> = Vec::new();
    if let Some(x) = o {
        out.push(x);
    }
    assert(out@ =~= unit(o));
    out
}

pub fn make_unit_ref(o: Option<Reference>) -> (r: Vec<Reference>)
    ensures
        refs_view(r@) == unit_ref(opt_ref_view(o)),
        forall|n: nat| #[trigger] opt_ref_ok(opt_ref_view(o), n) ==> refs_ok(refs_view(r@), n),
{
    let ghost ov = opt_ref_view(o);
    let mut out: Vec<Reference> = Vec::new();
    if let Some(x) = o {
        out.push(x);
    }
    assert(refs_view(out@) =~= unit_ref(ov));
    out
}

pub fn join(a: Vec<usize>, b: &Vec<usize>) -> (r: Vec<usize>)
    ensures
        r@ == joined(a@, b@),
        forall|n: nat| #![trigger all_below(r@, n)] all_below(a@, n) && all_below(b@, n) ==> all_below(r@, n),
{
    let mut out: Vec<usize> = a;
    let n: usize = b.len();
    let mut k: usize = 0;
    assert(out@ =~= a@ + b@.take(0));
    while k < n
        invariant
            n == b@.len(),
            k <= n,
            out@ == a@ + b@.take(k as int),
        decreases n - k,
    {
        out.push(b[k]);
        assert(out@ =~= a@ + b@.take(k + 1));
        k += 1;
    }
    assert(out@ =~= a@ + b@);
    out
}

pub fn join_refs(a: Vec<Reference>, b: &Vec<Reference>) -> (r: Vec<Reference>)
    ensures
        refs_view(r@) == joined_refs(refs_view(a@), refs_view(b@)),
        forall|n: nat| #![trigger refs_ok(refs_view(r@), n)] refs_ok(refs_view(a@), n) && refs_ok(refs_view(b@), n) ==> refs_ok(refs_view(r@), n),
{
    let ghost av = refs_view(a@);
    let ghost bv = refs_view(b@);
    let mut out: Vec<Reference> = a;
    let n: usize = b.len();
    let mut k: usize = 0;
    assert(refs_view(out@) =~= av + bv.take(0));
    while k < n
        invariant
            n == b@.len(),
            bv == refs_view(b@),
            k <= n,
            refs_view(out@) == av + bv.take(k as int),
        decreases n - k,
    {
        let ghost before = refs_view(out@);
        let r: Reference = b[k].duplicate();
        out.push(r);
        assert(refs_view(out@) =~= before.push(r@));
        assert(av + bv.take(k + 1) =~= before.push(bv[k as int]));
        k += 1;
    }
    assert(refs_view(out@) =~= av + bv);
    out
}

pub fn holds(s: &Vec<usize>, x: usize) -> (r: bool)
    ensures
        r == s@.contains(x),
{
    let n: usize = s.len();
    let mut k: usize = 0;
    while k < n
        invariant
            n == s@.len(),
            k <= n,
            forall|j: int| 0 <= j < k ==> s@[j] != x,
        decreases n - k,
    {
        if s[k] == x {
            assert(s@[k as int] == x);
            return true;
        }
        k += 1;
    }
    false
}

pub fn holds_ref(s: &Vec<Reference>, x: &Reference) -> (r: bool)
    ensures
        r == refs_view(s@).contains(x@),
{
    let n: usize = s.len();
    let mut k: usize = 0;
    while k < n
        invariant
            n == s@.len(),
            k <= n,
            forall|j: int| 0 <= j < k ==> #[trigger] refs_view(s@)[j] != x@,
        decreases n - k,
    {
        assert(refs_view(s@)[k as int] == s@[k as int]@);
        if s[k].same(x) {
            return true;
        }
        k += 1;
    }
    false
}

pub fn unite(a: Vec<usize>, b: &Vec<usize>) -> (r: Vec<usize>)
    ensures
        r@ == united(a@, b@),
        forall|n: nat| #![trigger all_below(r@, n)] all_below(a@, n) && all_below(b@, n) ==> all_below(r@, n),
{
    let mut out: Vec<usize> = a;
    let n: usize = b.len();
    let mut k: usize = 0;
    while k < n
        invariant
            n == b@.len(),
            k <= n,
            united_from(out@, b@, k as int) == united(a@, b@),
            forall|m: nat| #![trigger all_below(a@, m)] all_below(a@, m) && all_below(b@, m) ==> all_below(out@, m),
        decreases n - k,
    {
        let x: usize = b[k];
        if !holds(&out, x) {
            out.push(x);
        }
        k += 1;
    }
    out
}

pub fn unite_refs(a: Vec<Reference>, b: &Vec<Reference>) -> (r: Vec<Reference>)
    ensures
        refs_view(r@) == united_refs(refs_view(a@), refs_view(b@)),
        forall|n: nat| #![trigger refs_ok(refs_view(r@), n)] refs_ok(refs_view(a@), n) && refs_ok(refs_view(b@), n) ==> refs_ok(refs_view(r@), n),
{
    let ghost av = refs_view(a@);
    let ghost bv = refs_view(b@);
    let mut out: Vec<Reference> = a;
    let n: usize = b.len();
    let mut k: usize = 0;
    while k < n
        invariant
            n == b@.len(),
            bv == refs_view(b@),
            k <= n,
            united_refs_from(refs_view(out@), bv, k as int) == united_refs(av, bv),
            forall|m: nat| #![trigger refs_ok(av, m)] refs_ok(av, m) && refs_ok(bv, m) ==> refs_ok(refs_view(out@), m),
        decreases n - k,
    {
        assert(bv[k as int] == b@[k as int]@);
        let ghost before = refs_view(out@);
        if !holds_ref(&out, &b[k]) {
            let r: Reference = b[k].duplicate();
            out.push(r);
            assert(refs_view(out@) =~= before.push(r@));
        }
        k += 1;
    }
    out
}

pub fn make_refs(s: &Vec<usize>) -> (r: Vec<Reference>)
    ensures
        refs_view(r@) == as_refs(s@),
        forall|n: nat| #[trigger] all_below(s@, n) ==> refs_ok(refs_view(r@), n),
{
    let mut out: Vec<Reference> = Vec::new();
    let n: usize = s.len();
    let mut k: usize = 0;
    while k < n
        invariant
            n == s@.len(),
            k <= n,
            refs_view(out@) == as_refs(s@).take(k as int),
        decreases n - k,
    {
        let ghost before = refs_view(out@);
        let r = Reference::Element(s[k]);
        out.push(r);
        assert(refs_view(out@) =~= before.push(r@));
        assert(as_refs(s@).take(k + 1) =~= before.push(as_refs(s@)[k as int]));
        k += 1;
    }
    assert(refs_view(out@) =~= as_refs(s@));
    out
}

pub fn empty_els() -> (r: Vec<usize>)
    ensures
        r@ == Seq::<usize>::empty(),
        forall|n: nat| #[trigger] all_below(r@, n),
{
    let r: Vec<usize> = Vec::new();
    assert(r@ =~= Seq::<usize>::empty());
    r
}

pub fn empty_refs() -> (r: Vec<Reference>)
    ensures
        refs_view(r@) == Seq::<RefV>::empty(),
        forall|n: nat| #[trigger] refs_ok(refs_view(r@), n),
{
    let r: Vec<Reference> = Vec::new();
    assert(refs_view(r@) =~= Seq::<RefV>::empty());
    r
}

pub fn get_elem(r: &Option<Reference>) -> (o: Option<usize>)
    ensures
        o == elem_of(opt_ref_view(*r)),
        forall|n: nat| #[trigger] opt_ref_ok(opt_ref_view(*r), n) ==> below(o, n),
{
    match r {
        Some(x) => x.element(),
        None => None,
    }
}

pub fn make_ref(o: Option<usize>) -> (r: Option<Reference>)
    ensures
        opt_ref_view(r) == elem_ref(o),
        forall|n: nat| #[trigger] below(o, n) ==> opt_ref_ok(opt_ref_view(r), n),
{
    match o {
        Some(e) => Some(Reference::Element(e)),
        None => None,
    }
}

/// A union begins with its first list.
pub proof fn lemma_union_begins(a: Seq<usize>, b: Seq<usize>, k: int)
    requires
        0 <= k,
    ensures
        a.is_prefix_of(united_from(a, b, k)),
    decreases b.len() - k,
{
    if k < b.len() {
        let c = if a.contains(b[k]) {
            a
        } else {
            a.push(b[k])
        };
        lemma_union_begins(c, b, k + 1);
        let u = united_from(c, b, k + 1);
        assert(a =~= u.subrange(0, a.len() as int)) by {
            assert(c =~= u.subrange(0, c.len() as int));
            assert forall|i: int| 0 <= i < a.len() implies a[i] == u[i] by {
                assert(c[i] == u.subrange(0, c.len() as int)[i]);
            }
        }
    } else {
        assert(a =~= a.subrange(0, a.len() as int));
    }
}

} // verus!
