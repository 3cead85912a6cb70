//! Allow/deny bookkeeping for tag names and attributes.
//!
//! A [`BlackWhiteList`] records, name by name, whether a tag is wanted or
//! dismissed; a [`ValueAssociateHash`] does the same for attributes, where a
//! rule may also pin the attribute's value. Both only store what the user
//! said; combining the verdicts is [`ElementState`]'s business.

use vstd::prelude::*;

use crate::text::{str_eq, str_eq_chars};
use crate::types::html::render_pn_into;
use crate::types::tag::{
    attrs_view, lemma_attrs_view, opt_str_view, spec_attr_name, spec_attr_value, spec_pn_key,
    Attribute, AttributeModel,
};

verus! {

broadcast use vstd::std_specs::vec::group_vec_axioms;

// ------------------------------------------------------------------
// ElementState
// ------------------------------------------------------------------
/// The verdict a rule set gives for one element.
#[derive(Clone, Copy, PartialEq, Eq, Structural)]
pub enum ElementState {
    /// The element ought to be removed.
    BlackListed,
    /// No rule speaks of this element.
    NotSpecified,
    /// The element ought to be kept.
    WhiteListed,
}

/// How two verdicts combine: a deny wins over everything, one explicit allow
/// makes the whole allowed, and silence stays silence.
pub open spec fn spec_and(a: ElementState, b: ElementState) -> ElementState {
    match (a, b) {
        (ElementState::BlackListed, _) => ElementState::BlackListed,
        (_, ElementState::BlackListed) => ElementState::BlackListed,
        (ElementState::NotSpecified, ElementState::NotSpecified) => ElementState::NotSpecified,
        _ => ElementState::WhiteListed,
    }
}

/// The boolean a verdict resolves to, with `default` for silence.
pub open spec fn spec_is_allowed_or(st: ElementState, default: bool) -> bool {
    match st {
        ElementState::BlackListed => false,
        ElementState::NotSpecified => default,
        ElementState::WhiteListed => true,
    }
}

impl ElementState {
    /// Combines two verdicts; see [`spec_and`].
    pub fn and(&self, other: &ElementState) -> (r: ElementState)
        ensures
            r == spec_and(*self, *other),
    {
        match (self, other) {
            (ElementState::BlackListed, _) => ElementState::BlackListed,
            (_, ElementState::BlackListed) => ElementState::BlackListed,
            (ElementState::NotSpecified, ElementState::NotSpecified) => ElementState::NotSpecified,
            _ => ElementState::WhiteListed,
        }
    }

    /// Resolves the verdict to a boolean, with `default` for silence.
    pub fn is_allowed_or(&self, default: bool) -> (r: bool)
        ensures
            r == spec_is_allowed_or(*self, default),
    {
        match self {
            ElementState::BlackListed => false,
            ElementState::NotSpecified => default,
            ElementState::WhiteListed => true,
        }
    }
}

// ------------------------------------------------------------------
// BlackWhiteList
// ------------------------------------------------------------------
/// Model of a [`BlackWhiteList`].
pub struct BwlModel {
    pub default: bool,
    pub items: Seq<(Seq<char>, bool)>,
    pub whitelist_empty: bool,
}

/// View of the stored name rules.
pub open spec fn kv_view(s: Seq<(String, bool)>) -> Seq<(Seq<char>, bool)>
    decreases s,
{
    if s.len() == 0 {
        Seq::empty()
    } else {
        kv_view(s.drop_last()).push((s.last().0@, s.last().1))
    }
}

/// The view of a rule list holds the views of its entries.
pub proof fn lemma_kv_view(s: Seq<(String, bool)>)
    ensures
        kv_view(s).len() == s.len(),
        forall|i: int| 0 <= i < s.len() ==> kv_view(s)[i] == (s[i].0@, s[i].1),
    decreases s,
{
    if s.len() > 0 {
        lemma_kv_view(s.drop_last());
    }
}

/// The rule stored for `name`: the latest entry wins; `None` when no rule
/// speaks of that name.
pub open spec fn spec_kv_lookup(items: Seq<(Seq<char>, bool)>, name: Seq<char>) -> Option<bool>
    decreases items.len(),
{
    if items.len() == 0 {
        None
    } else if items.last().0 == name {
        Some(items.last().1)
    } else {
        spec_kv_lookup(items.drop_last(), name)
    }
}

/// The verdict the list gives for `name`: its stored rule if any; otherwise
/// silence when no allow rule was ever given and the default allows, and a
/// deny in every other case.
pub open spec fn spec_bwl_check(m: BwlModel, name: Seq<char>) -> ElementState {
    match spec_kv_lookup(m.items, name) {
        Some(true) => ElementState::WhiteListed,
        Some(false) => ElementState::BlackListed,
        None => if m.whitelist_empty && m.default {
            ElementState::NotSpecified
        } else {
            ElementState::BlackListed
        },
    }
}

/// Name-keyed allow and deny rules for tags.
pub struct BlackWhiteList {
    /// What an unlisted name resolves to when no allow rule exists.
    pub default: bool,
    /// The rules, in the order they were given; the latest entry for a name
    /// wins.
    pub items: Vec<(String, bool)>,
    /// Whether no allow rule was ever pushed.
    pub whitelist_empty: bool,
}

impl View for BlackWhiteList {
    type V = BwlModel;

    open spec fn view(&self) -> BwlModel {
        BwlModel {
            default: self.default,
            items: kv_view(self.items@),
            whitelist_empty: self.whitelist_empty,
        }
    }
}

impl BlackWhiteList {
    /// Creates an empty list: no rules, default allowing.
    pub fn new() -> (r: BlackWhiteList)
        ensures
            r@ == (BwlModel { default: true, items: Seq::empty(), whitelist_empty: true }),
    {
        let items: Vec<(String, bool)> = Vec::new();
        proof {
            assert(kv_view(items@) =~= Seq::<(Seq<char>, bool)>::empty());
        }
        BlackWhiteList { default: true, items, whitelist_empty: true }
    }

    /// The verdict for `name`; see [`spec_bwl_check`].
    #[verifier::loop_isolation(false)]
    pub fn check(&self, name: &String) -> (r: ElementState)
        ensures
            r == spec_bwl_check(self@, name@),
    {
        proof {
            lemma_kv_view(self.items@);
            assert(kv_view(self.items@).take(self.items@.len() as int) =~= kv_view(self.items@));
        }
        let mut i: usize = self.items.len();
        while i > 0
            invariant
                i <= self.items@.len(),
                spec_kv_lookup(self@.items, name@) == spec_kv_lookup(
                    self@.items.take(i as int),
                    name@,
                ),
            decreases i,
        {
            i = i - 1;
            proof {
                assert(self@.items.take(i as int + 1).drop_last() =~= self@.items.take(i as int));
                assert(self@.items.take(i as int + 1).last() == self@.items[i as int]);
            }
            if str_eq(self.items[i].0.as_str(), name.as_str()) {
                if self.items[i].1 {
                    return ElementState::WhiteListed;
                }
                return ElementState::BlackListed;
            }
        }
        proof {
            assert(self@.items.take(0) =~= Seq::<(Seq<char>, bool)>::empty());
        }
        if self.whitelist_empty && self.default {
            ElementState::NotSpecified
        } else {
            ElementState::BlackListed
        }
    }

    /// Whether no allow rule was ever pushed.
    pub fn is_empty(&self) -> (r: bool)
        ensures
            r == self@.whitelist_empty,
    {
        self.whitelist_empty
    }

    /// Adds a rule for `name`: an allow when `keep` is set, else a deny. The
    /// new rule replaces any earlier one for the same name, and replacing a
    /// rule of the opposite polarity is reported as an error.
    pub fn push(&mut self, name: String, keep: bool) -> (r: Result<(), ()>)
        ensures
            final(self)@.items == old(self)@.items.push((name@, keep)),
            final(self)@.default == old(self)@.default,
            final(self)@.whitelist_empty == (old(self)@.whitelist_empty && !keep),
            r is Err <==> (match spec_kv_lookup(old(self)@.items, name@) {
                Some(b) => b != keep,
                None => false,
            }),
    {
        let old_rule = self.lookup(&name);
        if keep {
            self.whitelist_empty = false;
        }
        let ghost items0 = self.items@;
        let ghost namev = name@;
        self.items.push((name, keep));
        proof {
            lemma_kv_view(items0);
            lemma_kv_view(self.items@);
            assert(kv_view(self.items@) =~= kv_view(items0).push((namev, keep)));
        }
        match old_rule {
            Some(b) if b != keep => Err(()),
            _ => Ok(()),
        }
    }

    /// The stored rule for `name`, the latest entry winning.
    #[verifier::loop_isolation(false)]
    pub(crate) fn lookup(&self, name: &String) -> (r: Option<bool>)
        ensures
            r == spec_kv_lookup(self@.items, name@),
    {
        proof {
            lemma_kv_view(self.items@);
            assert(kv_view(self.items@).take(self.items@.len() as int) =~= kv_view(self.items@));
        }
        let mut i: usize = self.items.len();
        while i > 0
            invariant
                i <= self.items@.len(),
                spec_kv_lookup(self@.items, name@) == spec_kv_lookup(
                    self@.items.take(i as int),
                    name@,
                ),
            decreases i,
        {
            i = i - 1;
            proof {
                assert(self@.items.take(i as int + 1).drop_last() =~= self@.items.take(i as int));
                assert(self@.items.take(i as int + 1).last() == self@.items[i as int]);
            }
            if str_eq(self.items[i].0.as_str(), name.as_str()) {
                return Some(self.items[i].1);
            }
        }
        proof {
            assert(self@.items.take(0) =~= Seq::<(Seq<char>, bool)>::empty());
        }
        None
    }

    /// Sets what an unlisted name resolves to when no allow rule exists.
    pub fn set_default(&mut self, default: bool)
        ensures
            final(self)@ == (BwlModel { default, ..old(self)@ }),
    {
        self.default = default;
    }
}

// ------------------------------------------------------------------
// ValueAssociateHash
// ------------------------------------------------------------------
/// Model of a [`ValueAssociateHash`].
pub struct VahModel {
    pub blacklist: Seq<(Seq<char>, Option<Seq<char>>)>,
    pub whitelist: Seq<(Seq<char>, Option<Seq<char>>)>,
}

/// View of the stored attribute rules.
pub open spec fn pairs_view(s: Seq<(String, Option<String>)>) -> Seq<(Seq<char>, Option<Seq<char>>)>
    decreases s,
{
    if s.len() == 0 {
        Seq::empty()
    } else {
        pairs_view(s.drop_last()).push((s.last().0@, opt_str_view(s.last().1)))
    }
}

/// The view of an attribute rule list holds the views of its entries.
pub proof fn lemma_pairs_view(s: Seq<(String, Option<String>)>)
    ensures
        pairs_view(s).len() == s.len(),
        forall|i: int| 0 <= i < s.len() ==> pairs_view(s)[i] == (s[i].0@, opt_str_view(s[i].1)),
    decreases s,
{
    if s.len() > 0 {
        lemma_pairs_view(s.drop_last());
    }
}

/// The value the tag shows for the attribute named `name` (the name as
/// written, prefix included): `Some(value)` for the last attribute with that
/// name, where `value` is `None` for a value-less attribute, and `None` when
/// no attribute has that name.
pub open spec fn spec_attr_lookup(attrs: Seq<AttributeModel>, name: Seq<char>) -> Option<
    Option<Seq<char>>,
>
    decreases attrs.len(),
{
    if attrs.len() == 0 {
        None
    } else if spec_pn_key(spec_attr_name(attrs.last())) == name {
        Some(spec_attr_value(attrs.last()))
    } else {
        spec_attr_lookup(attrs.drop_last(), name)
    }
}

/// Whether the tag's attributes satisfy every allow rule: each listed name is
/// present, with exactly the listed value (or value-less, for a rule without
/// a value).
pub open spec fn spec_wl_ok(
    wl: Seq<(Seq<char>, Option<Seq<char>>)>,
    attrs: Seq<AttributeModel>,
) -> bool
    decreases wl.len(),
{
    if wl.len() == 0 {
        true
    } else {
        spec_attr_lookup(attrs, wl.first().0) == Some(wl.first().1) && spec_wl_ok(
            wl.drop_first(),
            attrs,
        )
    }
}

/// Whether some deny rule matches: its name is present with exactly the
/// listed value.
pub open spec fn spec_bl_hit(
    bl: Seq<(Seq<char>, Option<Seq<char>>)>,
    attrs: Seq<AttributeModel>,
) -> bool
    decreases bl.len(),
{
    if bl.len() == 0 {
        false
    } else {
        spec_attr_lookup(attrs, bl.first().0) == Some(bl.first().1) || spec_bl_hit(
            bl.drop_first(),
            attrs,
        )
    }
}

/// The verdict the attribute rules give: a deny when an allow rule is unmet
/// or a deny rule matches; silence when there are no rules at all; an allow
/// otherwise.
pub open spec fn spec_vah_check(m: VahModel, attrs: Seq<AttributeModel>) -> ElementState {
    if !spec_wl_ok(m.whitelist, attrs) {
        ElementState::BlackListed
    } else if spec_bl_hit(m.blacklist, attrs) {
        ElementState::BlackListed
    } else if m.whitelist.len() == 0 && m.blacklist.len() == 0 {
        ElementState::NotSpecified
    } else {
        ElementState::WhiteListed
    }
}

/// Attribute rules: names, optionally pinned to a value, wanted or dismissed.
pub struct ValueAssociateHash {
    /// Names and values explicitly not wanted.
    pub blacklist: Vec<(String, Option<String>)>,
    /// Names and values explicitly wanted.
    pub whitelist: Vec<(String, Option<String>)>,
}

impl View for ValueAssociateHash {
    type V = VahModel;

    open spec fn view(&self) -> VahModel {
        VahModel { blacklist: pairs_view(self.blacklist@), whitelist: pairs_view(self.whitelist@) }
    }
}

/// The value the tag shows for the attribute named `name`, cloned out.
#[verifier::loop_isolation(false)]
fn attr_lookup(attrs: &Vec<Attribute>, name: &String) -> (r: Option<Option<String>>)
    ensures
        (match r {
            None => spec_attr_lookup(attrs_view(attrs@), name@) is None,
            Some(v) => spec_attr_lookup(attrs_view(attrs@), name@) == Some(opt_str_view(v)),
        }),
{
    proof {
        lemma_attrs_view(attrs@);
        assert(attrs_view(attrs@).take(attrs@.len() as int) =~= attrs_view(attrs@));
    }
    let mut i: usize = attrs.len();
    while i > 0
        invariant
            i <= attrs@.len(),
            spec_attr_lookup(attrs_view(attrs@), name@) == spec_attr_lookup(
                attrs_view(attrs@).take(i as int),
                name@,
            ),
        decreases i,
    {
        i = i - 1;
        proof {
            assert(attrs_view(attrs@).take(i as int + 1).drop_last() =~= attrs_view(
                attrs@,
            ).take(i as int));
            assert(attrs_view(attrs@).take(i as int + 1).last() == attrs_view(attrs@)[i as int]);
        }
        let mut key: Vec<char> = Vec::new();
        render_pn_into(attrs[i].as_name(), &mut key);
        if str_eq_chars(name.as_str(), &key) {
            match attrs[i].as_value() {
                None => {
                    return Some(None);
                },
                Some(v) => {
                    return Some(Some(v.clone()));
                },
            }
        }
    }
    proof {
        assert(attrs_view(attrs@).take(0) =~= Seq::<AttributeModel>::empty());
    }
    None
}

/// Compares two optional strings by content.
fn opt_str_eq(a: &Option<String>, b: &Option<String>) -> (r: bool)
    ensures
        r == (opt_str_view(*a) == opt_str_view(*b)),
{
    match (a, b) {
        (None, None) => true,
        (Some(x), Some(y)) => str_eq(x.as_str(), y.as_str()),
        _ => false,
    }
}

impl ValueAssociateHash {
    /// Creates an empty rule set.
    pub fn new() -> (r: ValueAssociateHash)
        ensures
            r@ == (VahModel { blacklist: Seq::empty(), whitelist: Seq::empty() }),
    {
        let blacklist: Vec<(String, Option<String>)> = Vec::new();
        let whitelist: Vec<(String, Option<String>)> = Vec::new();
        proof {
            assert(pairs_view(blacklist@) =~= Seq::<(Seq<char>, Option<Seq<char>>)>::empty());
            assert(pairs_view(whitelist@) =~= Seq::<(Seq<char>, Option<Seq<char>>)>::empty());
        }
        ValueAssociateHash { blacklist, whitelist }
    }

    /// The verdict for a tag's attributes; see [`spec_vah_check`].
    #[verifier::loop_isolation(false)]
    pub fn check(&self, attrs: &Vec<Attribute>) -> (r: ElementState)
        ensures
            r == spec_vah_check(self@, attrs_view(attrs@)),
    {
        proof {
            lemma_pairs_view(self.whitelist@);
            lemma_pairs_view(self.blacklist@);
            assert(self@.whitelist.skip(0) =~= self@.whitelist);
            assert(self@.blacklist.skip(0) =~= self@.blacklist);
        }
        let wn = self.whitelist.len();
        let mut i: usize = 0;
        while i < wn
            invariant
                i <= wn,
                wn == self@.whitelist.len(),
                spec_wl_ok(self@.whitelist, attrs_view(attrs@)) == spec_wl_ok(
                    self@.whitelist.skip(i as int),
                    attrs_view(attrs@),
                ),
            decreases wn - i,
        {
            proof {
                assert(self@.whitelist.skip(i as int).first() == self@.whitelist[i as int]);
                assert(self@.whitelist.skip(i as int).drop_first() =~= self@.whitelist.skip(
                    i as int + 1,
                ));
            }
            let found = attr_lookup(attrs, &self.whitelist[i].0);
            match found {
                None => {
                    return ElementState::BlackListed;
                },
                Some(v) => {
                    if !opt_str_eq(&v, &self.whitelist[i].1) {
                        return ElementState::BlackListed;
                    }
                },
            }
            i = i + 1;
        }
        proof {
            assert(self@.whitelist.skip(wn as int) =~= Seq::<
                (Seq<char>, Option<Seq<char>>),
            >::empty());
        }
        let bn = self.blacklist.len();
        let mut j: usize = 0;
        while j < bn
            invariant
                j <= bn,
                bn == self@.blacklist.len(),
                spec_bl_hit(self@.blacklist, attrs_view(attrs@)) == spec_bl_hit(
                    self@.blacklist.skip(j as int),
                    attrs_view(attrs@),
                ),
            decreases bn - j,
        {
            proof {
                assert(self@.blacklist.skip(j as int).first() == self@.blacklist[j as int]);
                assert(self@.blacklist.skip(j as int).drop_first() =~= self@.blacklist.skip(
                    j as int + 1,
                ));
            }
            let found = attr_lookup(attrs, &self.blacklist[j].0);
            match found {
                Some(v) => {
                    if opt_str_eq(&v, &self.blacklist[j].1) {
                        return ElementState::BlackListed;
                    }
                },
                None => {},
            }
            j = j + 1;
        }
        proof {
            assert(self@.blacklist.skip(bn as int) =~= Seq::<
                (Seq<char>, Option<Seq<char>>),
            >::empty());
        }
        if self.whitelist.is_empty() && self.blacklist.is_empty() {
            ElementState::NotSpecified
        } else {
            ElementState::WhiteListed
        }
    }

    /// Whether some deny rule matches the tag's attributes.
    #[verifier::loop_isolation(false)]
    pub(crate) fn blacklist_hit(&self, attrs: &Vec<Attribute>) -> (r: bool)
        ensures
            r == spec_bl_hit(self@.blacklist, attrs_view(attrs@)),
    {
        proof {
            lemma_pairs_view(self.blacklist@);
            assert(self@.blacklist.skip(0) =~= self@.blacklist);
        }
        let bn = self.blacklist.len();
        let mut j: usize = 0;
        while j < bn
            invariant
                j <= bn,
                bn == self@.blacklist.len(),
                spec_bl_hit(self@.blacklist, attrs_view(attrs@)) == spec_bl_hit(
                    self@.blacklist.skip(j as int),
                    attrs_view(attrs@),
                ),
            decreases bn - j,
        {
            proof {
                assert(self@.blacklist.skip(j as int).first() == self@.blacklist[j as int]);
                assert(self@.blacklist.skip(j as int).drop_first() =~= self@.blacklist.skip(
                    j as int + 1,
                ));
            }
            let found = attr_lookup(attrs, &self.blacklist[j].0);
            match found {
                Some(v) => {
                    if opt_str_eq(&v, &self.blacklist[j].1) {
                        return true;
                    }
                },
                None => {},
            }
            j = j + 1;
        }
        proof {
            assert(self@.blacklist.skip(bn as int) =~= Seq::<
                (Seq<char>, Option<Seq<char>>),
            >::empty());
        }
        false
    }

    /// Whether no rule was ever given.
    pub fn is_empty(&self) -> (r: bool)
        ensures
            r == (self@.whitelist.len() == 0 && self@.blacklist.len() == 0),
    {
        self.whitelist.is_empty() && self.blacklist.is_empty()
    }

    /// Adds a rule for the attribute `name`: an allow when `keep` is set,
    /// else a deny; `value`, when given, pins the attribute's value.
    pub fn push(&mut self, name: String, value: Option<String>, keep: bool)
        ensures
            keep ==> final(self)@ == (VahModel {
                whitelist: old(self)@.whitelist.push((name@, opt_str_view(value))),
                ..old(self)@
            }),
            !keep ==> final(self)@ == (VahModel {
                blacklist: old(self)@.blacklist.push((name@, opt_str_view(value))),
                ..old(self)@
            }),
    {
        let ghost w0 = self.whitelist@;
        let ghost b0 = self.blacklist@;
        let ghost namev = name@;
        let ghost valuev = opt_str_view(value);
        if keep {
            self.whitelist.push((name, value));
            proof {
                lemma_pairs_view(w0);
                lemma_pairs_view(self.whitelist@);
                assert(pairs_view(self.whitelist@) =~= pairs_view(w0).push((namev, valuev)));
            }
        } else {
            self.blacklist.push((name, value));
            proof {
                lemma_pairs_view(b0);
                lemma_pairs_view(self.blacklist@);
                assert(pairs_view(self.blacklist@) =~= pairs_view(b0).push((namev, valuev)));
            }
        }
    }
}

} // verus!
