//! Types of expressions, and attribute sets kept in the order of their names.

use crate::order::{lemma_name_lt_order, name_lt, rank, Rank};
use crate::vfs::share;
use smol_str::SmolStr;
use std::sync::Arc;
use vstd::prelude::*;

verus! {

/// A short string of the `smol_str` crate: cheap to copy, never changed.
#[verifier::external_type_specification]
#[verifier::external_body]
pub struct ExSmolStr(smol_str::SmolStr);

/// The text that a short string holds.
pub uninterp spec fn smol_text(s: SmolStr) -> Seq<char>;

/// `SmolStr::from` makes a short string of the given text.
#[verifier::external_body]
pub(crate) fn smol_from(text: &str) -> (s: SmolStr)
    ensures
        smol_text(s) == text@,
{
    SmolStr::from(text)
}

/// `SmolStr::as_str` hands out the text of a short string.
#[verifier::external_body]
pub(crate) fn smol_as_str(s: &SmolStr) -> (text: &str)
    ensures
        text@ == smol_text(*s),
{
    s.as_str()
}

/// Identifier of a name definition.
#[derive(Clone, Copy, Debug, PartialEq, Eq, Hash, Structural)]
pub struct NameId(pub u32);

/// The source of an attribute.
#[derive(Clone, Copy, Debug, PartialEq, Eq, Structural)]
pub enum AttrSource {
    /// Unknown source, possibly generated or referenced.
    Unknown,
    /// Defined by a name.
    Name(NameId),
}

/// The type of an expression.
#[derive(Clone, Debug, PartialEq, Eq)]
pub enum Ty {
    Unknown,
    Bool,
    Int,
    Float,
    String,
    Path,
    List(Arc<Ty>),
    Lambda(Arc<Ty>, Arc<Ty>),
    Attrset(Attrset),
}

/// The type of an attribute set: its fields with their types and sources,
/// in the order of their names.
#[derive(Debug, PartialEq, Eq)]
pub struct Attrset(Arc<Vec<(SmolStr, Ty, AttrSource)>>);

impl Clone for Attrset {
    /// One more handle on the same fields.
    fn clone(&self) -> (copy: Attrset)
        ensures
            copy == *self,
    {
        proof {
            use_type_invariant(self);
        }
        Attrset(share(&self.0))
    }
}

/// A field as contracts see it: its name, its type and its source.
pub struct FieldView {
    pub name: Seq<char>,
    pub ty: Ty,
    pub source: AttrSource,
}

/// The fields stand in the strict order of their names.
pub open spec fn sorted_by_name(fields: Seq<FieldView>) -> bool {
    forall|i: int, j: int|
        0 <= i < j < fields.len() ==> name_lt((#[trigger] fields[i]).name, (#[trigger] fields[j]).name)
}

/// Whether a field of this name is among the fields.
pub open spec fn has_field(fields: Seq<FieldView>, name: Seq<char>) -> bool {
    exists|i: int| 0 <= i < fields.len() && (#[trigger] fields[i]).name == name
}

/// The field of this name.
pub open spec fn field_of(fields: Seq<FieldView>, name: Seq<char>) -> FieldView
    recommends
        has_field(fields, name),
{
    fields[choose|i: int| 0 <= i < fields.len() && (#[trigger] fields[i]).name == name]
}

/// The fields that a list of entries holds.
pub open spec fn fields_of(entries: Seq<(SmolStr, Ty, AttrSource)>) -> Seq<FieldView> {
    Seq::new(
        entries.len(),
        |i: int| FieldView { name: smol_text(entries[i].0), ty: entries[i].1, source: entries[i].2 },
    )
}

impl View for Attrset {
    type V = Seq<FieldView>;

    closed spec fn view(&self) -> Seq<FieldView> {
        fields_of(self.0@)
    }
}

/// A type together with the depth down to which it is written out.
#[derive(Clone, Copy, Debug)]
pub struct TyDisplay<'a> {
    ty: &'a Ty,
    max_depth: usize,
}

impl<'a> TyDisplay<'a> {
    /// The type, to be written out down to `max_depth` levels.
    pub fn new(ty: &'a Ty, max_depth: usize) -> (r: TyDisplay<'a>)
        ensures
            r.ty() == ty,
            r.depth() == max_depth,
    {
        TyDisplay { ty, max_depth }
    }

    /// The type that is written out.
    pub closed spec fn ty(&self) -> &'a Ty {
        self.ty
    }

    /// The depth down to which the type is written out.
    pub closed spec fn depth(&self) -> usize {
        self.max_depth
    }

    /// The type that is written out.
    pub fn shown(&self) -> (ty: &'a Ty)
        ensures
            ty == self.ty(),
    {
        self.ty
    }

    /// The depth down to which the type is written out.
    pub fn max_depth(&self) -> (depth: usize)
        ensures
            depth == self.depth(),
    {
        self.max_depth
    }
}

impl Ty {
    /// The type as it is shown to the user: written out two levels deep.
    pub fn display(&self) -> (r: TyDisplay<'_>)
        ensures
            r.ty() == self,
            r.depth() == 2,
    {
        TyDisplay::new(self, 2)
    }

    /// The type written out in full.
    pub fn debug(&self) -> (r: TyDisplay<'_>)
        ensures
            r.ty() == self,
            r.depth() == usize::MAX,
    {
        TyDisplay::new(self, usize::MAX)
    }

    /// The attribute set that the type is, if it is one.
    pub fn as_attrset(&self) -> (r: Option<&Attrset>)
        ensures
            r == (match *self {
                Ty::Attrset(set) => Some(&set),
                _ => None,
            }),
    {
        match self {
            Ty::Attrset(v) => Some(v),
            _ => None,
        }
    }
}

impl Default for Attrset {
    fn default() -> (set: Attrset)
        ensures
            set@.len() == 0,
    {
        Attrset(Arc::new(Vec::new()))
    }
}

/// In sorted fields a name stands at one place at most.
proof fn lemma_sorted_unique(fields: Seq<FieldView>, i: int, j: int)
    requires
        sorted_by_name(fields),
        0 <= i < fields.len(),
        0 <= j < fields.len(),
        fields[i].name == fields[j].name,
    ensures
        i == j,
{
    lemma_name_lt_order(fields[i].name, fields[j].name, fields[i].name);
    if i < j {
        assert(name_lt(fields[i].name, fields[j].name));
    } else if j < i {
        assert(name_lt(fields[j].name, fields[i].name));
    }
}

/// Where the field of this name stands among sorted entries, or where it
/// would have to.
fn search(entries: &Vec<(SmolStr, Ty, AttrSource)>, field: &str) -> (r: (usize, bool))
    requires
        sorted_by_name(fields_of(entries@)),
    ensures
        r.0 <= entries@.len(),
        r.1 == has_field(fields_of(entries@), field@),
        r.1 ==> r.0 < entries@.len() && fields_of(entries@)[r.0 as int].name == field@,
        forall|k: int| 0 <= k < r.0 ==> name_lt((#[trigger] fields_of(entries@)[k]).name, field@),
        forall|k: int|
            r.0 <= k < entries@.len() && !(r.1 && k == r.0) ==> name_lt(
                field@,
                (#[trigger] fields_of(entries@)[k]).name,
            ),
{
    let ghost fields = fields_of(entries@);
    let mut low: usize = 0;
    let mut high: usize = entries.len();
    while low < high
        invariant
            sorted_by_name(fields),
            fields == fields_of(entries@),
            low <= high <= entries@.len(),
            forall|k: int| 0 <= k < low ==> name_lt((#[trigger] fields[k]).name, field@),
            forall|k: int| high <= k < fields.len() ==> name_lt(field@, (#[trigger] fields[k]).name),
        decreases high - low,
    {
        let mid = low + (high - low) / 2;
        let name = smol_as_str(&entries[mid].0);
        assert(name@ == fields[mid as int].name);
        match rank(name, field) {
            Rank::Before => {
                proof {
                    assert forall|k: int| 0 <= k < mid + 1 implies name_lt(
                        (#[trigger] fields[k]).name,
                        field@,
                    ) by {
                        if k < mid {
                            assert(name_lt(fields[k].name, fields[mid as int].name));
                            lemma_name_lt_order(fields[k].name, fields[mid as int].name, field@);
                        }
                    }
                }
                low = mid + 1;
            },
            Rank::Same => {
                proof {
                    assert forall|k: int| 0 <= k < mid implies name_lt(
                        (#[trigger] fields[k]).name,
                        field@,
                    ) by {
                        assert(name_lt(fields[k].name, fields[mid as int].name));
                    }
                    assert forall|k: int| mid < k < fields.len() implies name_lt(
                        field@,
                        (#[trigger] fields[k]).name,
                    ) by {
                        assert(name_lt(fields[mid as int].name, fields[k].name));
                    }
                }
                return (mid, true);
            },
            Rank::After => {
                proof {
                    lemma_name_lt_order(field@, fields[mid as int].name, field@);
                    assert forall|k: int| mid <= k < fields.len() implies name_lt(
                        field@,
                        (#[trigger] fields[k]).name,
                    ) by {
                        if mid < k {
                            assert(name_lt(fields[mid as int].name, fields[k].name));
                            lemma_name_lt_order(field@, fields[mid as int].name, fields[k].name);
                        }
                    }
                }
                high = mid;
            },
        }
    }
    proof {
        if has_field(fields, field@) {
            let i = choose|i: int| 0 <= i < fields.len() && (#[trigger] fields[i]).name == field@;
            lemma_name_lt_order(field@, field@, field@);
            if i < low {
                assert(name_lt(fields[i].name, field@));
            } else {
                assert(name_lt(field@, fields[i].name));
            }
        }
    }
    (low, false)
}

/// The field that an entry of a schema makes: its source is unknown.
pub open spec fn schema_field(entry: (&str, Ty)) -> FieldView {
    FieldView { name: entry.0@, ty: entry.1, source: AttrSource::Unknown }
}

/// No two of the entries have the same name.
pub open spec fn distinct_names(entries: Seq<(&str, Ty)>) -> bool {
    forall|i: int, j: int|
        0 <= i < j < entries.len() ==> (#[trigger] entries[i]).0@ != (#[trigger] entries[j]).0@
}

/// Whether the field that the entry makes is among the fields.
pub open spec fn placed(fields: Seq<FieldView>, entry: (&str, Ty)) -> bool {
    exists|j: int| 0 <= j < fields.len() && #[trigger] fields[j] == schema_field(entry)
}

/// Whether one of the entries from `from` on has this name.
pub open spec fn named_from(entries: Seq<(&str, Ty)>, from: int, name: Seq<char>) -> bool {
    exists|i: int| from <= i < entries.len() && (#[trigger] entries[i]).0@ == name
}

impl Attrset {
    /// The fields stand in the strict order of their names; so no name
    /// stands twice.
    #[verifier::type_invariant]
    closed spec fn sorted(&self) -> bool {
        sorted_by_name(self@)
    }

    /// Builds the attribute set of a schema from its fields, whose names
    /// differ. The set holds exactly these fields, each with an unknown
    /// source.
    pub fn from_internal(entries: Vec<(&str, Ty)>) -> (set: Attrset)
        requires
            distinct_names(entries@),
        ensures
            sorted_by_name(set@),
            set@.len() == entries@.len(),
            forall|i: int|
                0 <= i < entries@.len() ==> has_field(set@, (#[trigger] entries@[i]).0@) && field_of(
                    set@,
                    entries@[i].0@,
                ) == schema_field(entries@[i]),
    {
        let ghost all = entries@;
        let mut rest = entries;
        let mut sorted: Vec<(SmolStr, Ty, AttrSource)> = Vec::new();
        while rest.len() > 0
            invariant
                distinct_names(all),
                rest@.len() <= all.len(),
                rest@ == all.take(rest@.len() as int),
                sorted@.len() == all.len() - rest@.len(),
                sorted_by_name(fields_of(sorted@)),
                forall|i: int|
                    rest@.len() <= i < all.len() ==> placed(fields_of(sorted@), #[trigger] all[i]),
                forall|j: int|
                    0 <= j < sorted@.len() ==> named_from(
                        all,
                        rest@.len() as int,
                        (#[trigger] fields_of(sorted@)[j]).name,
                    ),
            decreases rest.len(),
        {
            let ghost before = fields_of(sorted@);
            let ghost n = rest@.len() - 1;
            let (name, ty) = rest.pop().unwrap();
            assert(rest@ =~= all.take(n));
            assert(all[n] == (name, ty));
            let (p, found) = search(&sorted, name);
            proof {
                if found {
                    assert(named_from(all, n + 1, before[p as int].name));
                    let i = choose|i: int|
                        n + 1 <= i < all.len() && (#[trigger] all[i]).0@ == before[p as int].name;
                    assert(all[n].0@ != all[i].0@);
                }
            }
            sorted.insert(p, (smol_from(name), ty, AttrSource::Unknown));
            proof {
                let after = fields_of(sorted@);
                let new = schema_field(all[n]);
                assert(after =~= before.insert(p as int, new));
                assert forall|i: int, j: int| 0 <= i < j < after.len() implies name_lt(
                    (#[trigger] after[i]).name,
                    (#[trigger] after[j]).name,
                ) by {
                    let i0 = if i < p { i } else { i - 1 };
                    let j0 = if j < p { j } else { j - 1 };
                    if i == p {
                        assert(after[j] == before[j0]);
                    } else if j == p {
                        assert(after[i] == before[i0]);
                    } else {
                        assert(after[i] == before[i0]);
                        assert(after[j] == before[j0]);
                    }
                }
                assert forall|i: int| n <= i < all.len() implies placed(
                    after,
                    #[trigger] all[i],
                ) by {
                    if i == n {
                        assert(after[p as int] == new);
                    } else {
                        assert(placed(before, all[i]));
                        let j0 = choose|j: int|
                            0 <= j < before.len() && #[trigger] before[j] == schema_field(all[i]);
                        let j = if j0 < p { j0 } else { j0 + 1 };
                        assert(after[j] == before[j0]);
                    }
                }
                assert forall|j: int| 0 <= j < after.len() implies named_from(
                    all,
                    n,
                    (#[trigger] after[j]).name,
                ) by {
                    if j == p {
                        assert(all[n].0@ == after[j].name);
                    } else {
                        let j0 = if j < p { j } else { j - 1 };
                        assert(after[j] == before[j0]);
                        assert(named_from(all, n + 1, before[j0].name));
                        let i = choose|i: int|
                            n + 1 <= i < all.len() && (#[trigger] all[i]).0@ == before[j0].name;
                        assert(all[i].0@ == after[j].name);
                    }
                }
            }
        }
        let set = Attrset(Arc::new(sorted));
        proof {
            assert forall|i: int| 0 <= i < all.len() implies has_field(set@, (#[trigger] all[i]).0@)
                && field_of(set@, all[i].0@) == schema_field(all[i]) by {
                assert(placed(fields_of(sorted@), all[i]));
                let j = choose|j: int|
                    0 <= j < sorted@.len() && #[trigger] fields_of(sorted@)[j] == schema_field(
                        all[i],
                    );
                assert(set@[j].name == all[i].0@);
                let c = choose|c: int|
                    0 <= c < set@.len() && (#[trigger] set@[c]).name == all[i].0@;
                lemma_sorted_unique(set@, c, j);
            }
        }
        set
    }

    /// Whether the set has no fields.
    pub fn is_empty(&self) -> (r: bool)
        ensures
            r == (self@.len() == 0),
    {
        self.0.len() == 0
    }

    /// How many fields the set has.
    pub fn len(&self) -> (n: usize)
        ensures
            n == self@.len(),
    {
        self.0.len()
    }

    /// Type and source of the field of this name.
    fn get_all(&self, field: &str) -> (r: Option<(&Ty, AttrSource)>)
        ensures
            match r {
                Some((ty, source)) => has_field(self@, field@) && *ty == field_of(self@, field@).ty
                    && source == field_of(self@, field@).source,
                None => !has_field(self@, field@),
            },
    {
        proof {
            use_type_invariant(self);
        }
        let (i, found) = search(&self.0, field);
        if found {
            proof {
                let c = choose|c: int| 0 <= c < self@.len() && (#[trigger] self@[c]).name == field@;
                lemma_sorted_unique(self@, c, i as int);
            }
            Some((&self.0[i].1, self.0[i].2))
        } else {
            None
        }
    }

    /// The type of the field of this name.
    pub fn get(&self, field: &str) -> (r: Option<&Ty>)
        ensures
            r is Some == has_field(self@, field@),
            r is Some ==> *r->0 == field_of(self@, field@).ty,
    {
        match self.get_all(field) {
            Some((ty, _)) => Some(ty),
            None => None,
        }
    }

    /// The source of the field of this name.
    pub fn get_src(&self, field: &str) -> (r: Option<AttrSource>)
        ensures
            r is Some == has_field(self@, field@),
            r is Some ==> r->0 == field_of(self@, field@).source,
    {
        match self.get_all(field) {
            Some((_, source)) => Some(source),
            None => None,
        }
    }

    /// The fields in the order of their names.
    pub fn iter(&self) -> (fields: Vec<(&SmolStr, &Ty, AttrSource)>)
        ensures
            sorted_by_name(self@),
            fields@.len() == self@.len(),
            forall|i: int|
                0 <= i < fields@.len() ==> smol_text(*(#[trigger] fields@[i]).0) == self@[i].name
                    && *fields@[i].1 == self@[i].ty && fields@[i].2 == self@[i].source,
    {
        proof {
            use_type_invariant(self);
        }
        let mut fields: Vec<(&SmolStr, &Ty, AttrSource)> = Vec::new();
        let mut i: usize = 0;
        while i < self.0.len()
            invariant
                i <= self.0.len(),
                self@.len() == self.0@.len(),
                fields@.len() == i,
                forall|k: int|
                    0 <= k < i ==> smol_text(*(#[trigger] fields@[k]).0) == self@[k].name
                        && *fields@[k].1 == self@[k].ty && fields@[k].2 == self@[k].source,
            decreases self.0.len() - i,
        {
            fields.push((&self.0[i].0, &self.0[i].1, self.0[i].2));
            i += 1;
        }
        fields
    }
}

/// What kind of module a file is.
#[derive(Debug)]
pub enum ModuleKind {
    /// Nothing is known of it.
    Unknown,
    /// The file of a flake, with the names of the inputs that it declares
    /// and of those that its outputs take as parameters.
    FlakeNix { explicit_inputs: Vec<String>, param_inputs: Vec<String> },
}

/// The names stand in their strict order.
pub open spec fn names_sorted(names: Seq<Seq<char>>) -> bool {
    forall|i: int, j: int|
        0 <= i < j < names.len() ==> name_lt(#[trigger] names[i], #[trigger] names[j])
}

/// The texts of a list of strings.
pub open spec fn name_texts(names: Seq<String>) -> Seq<Seq<char>> {
    Seq::new(names.len(), |i: int| names[i]@)
}

/// Puts a name at its place among sorted names, unless it is there.
fn insert_name(names: &mut Vec<String>, name: &String)
    requires
        names_sorted(name_texts(old(names)@)),
    ensures
        names_sorted(name_texts(final(names)@)),
        name_texts(final(names)@).contains(name@),
        forall|other: Seq<char>|
            name_texts(final(names)@).contains(other) <==> other == name@ || name_texts(
                old(names)@,
            ).contains(other),
{
    let ghost before = name_texts(names@);
    let mut p: usize = 0;
    let mut stop = false;
    while p < names.len() && !stop
        invariant
            p <= names.len(),
            names@ == old(names)@,
            before == name_texts(names@),
            names_sorted(before),
            forall|k: int| 0 <= k < p ==> name_lt(#[trigger] before[k], name@),
            stop ==> p < names.len() && name_lt(name@, before[p as int]),
        decreases names.len() - p + (if stop { 0int } else { 1int }),
    {
        match rank(names[p].as_str(), name.as_str()) {
            Rank::Before => {
                p += 1;
            },
            Rank::Same => {
                assert(before[p as int] == name@);
                return ;
            },
            Rank::After => {
                proof {
                    lemma_name_lt_order(name@, before[p as int], name@);
                }
                stop = true;
            },
        }
    }
    proof {
        assert forall|k: int| p <= k < before.len() implies name_lt(name@, #[trigger] before[k]) by {
            if p < k {
                assert(name_lt(before[p as int], before[k]));
                lemma_name_lt_order(name@, before[p as int], before[k]);
            }
        }
    }
    names.insert(p, name.clone());
    proof {
        let after = name_texts(names@);
        assert(after =~= before.insert(p as int, name@));
        assert forall|i: int, j: int| 0 <= i < j < after.len() implies name_lt(
            #[trigger] after[i],
            #[trigger] after[j],
        ) by {
            let i0 = if i < p { i } else { i - 1 };
            let j0 = if j < p { j } else { j - 1 };
            if i == p {
                assert(after[j] == before[j0]);
            } else if j == p {
                assert(after[i] == before[i0]);
            } else {
                assert(after[i] == before[i0]);
                assert(after[j] == before[j0]);
            }
        }
        assert(after[p as int] == name@);
        assert forall|other: Seq<char>| after.contains(other) <==> other == name@ || before.contains(
            other,
        ) by {
            if after.contains(other) {
                let k = choose|k: int| 0 <= k < after.len() && after[k] == other;
                if k != p {
                    let k0 = if k < p { k } else { k - 1 };
                    assert(before[k0] == other);
                }
            }
            if before.contains(other) {
                let k0 = choose|k: int| 0 <= k < before.len() && before[k] == other;
                let k = if k0 < p { k0 } else { k0 + 1 };
                assert(after[k] == other);
            }
        }
    }
}

/// A list with one more name holds the names that it held, and that one.
proof fn lemma_contains_push(names: Seq<Seq<char>>, last: Seq<char>, name: Seq<char>)
    ensures
        names.push(last).contains(name) <==> names.contains(name) || name == last,
{
    let longer = names.push(last);
    if longer.contains(name) {
        let k = choose|k: int| 0 <= k < longer.len() && longer[k] == name;
        if k < names.len() {
            assert(names[k] == name);
        }
    }
    if names.contains(name) {
        let k = choose|k: int| 0 <= k < names.len() && names[k] == name;
        assert(longer[k] == name);
    }
    assert(longer[names.len() as int] == last);
}

/// The names of the inputs of a flake: those that it declares and those
/// that its outputs take, each once, in the order of names.
pub fn flake_input_names(explicit_inputs: &Vec<String>, param_inputs: &Vec<String>) -> (names: Vec<
    String,
>)
    ensures
        names_sorted(name_texts(names@)),
        forall|name: Seq<char>|
            name_texts(names@).contains(name) <==> name_texts(explicit_inputs@).contains(name)
                || name_texts(param_inputs@).contains(name),
{
    let mut names: Vec<String> = Vec::new();
    let mut i: usize = 0;
    while i < explicit_inputs.len()
        invariant
            i <= explicit_inputs.len(),
            names_sorted(name_texts(names@)),
            forall|name: Seq<char>|
                name_texts(names@).contains(name) <==> name_texts(explicit_inputs@).take(
                    i as int,
                ).contains(name),
        decreases explicit_inputs.len() - i,
    {
        let ghost before = name_texts(names@);
        insert_name(&mut names, &explicit_inputs[i]);
        proof {
            let all = name_texts(explicit_inputs@);
            assert(all.take(i + 1) =~= all.take(i as int).push(all[i as int]));
            assert forall|name: Seq<char>| name_texts(names@).contains(name) <==> all.take(
                i + 1,
            ).contains(name) by {
                lemma_contains_push(all.take(i as int), all[i as int], name);
            }
        }
        i += 1;
    }
    assert(name_texts(explicit_inputs@).take(i as int) =~= name_texts(explicit_inputs@));
    let mut j: usize = 0;
    while j < param_inputs.len()
        invariant
            j <= param_inputs.len(),
            names_sorted(name_texts(names@)),
            forall|name: Seq<char>|
                name_texts(names@).contains(name) <==> name_texts(explicit_inputs@).contains(name)
                    || name_texts(param_inputs@).take(j as int).contains(name),
        decreases param_inputs.len() - j,
    {
        insert_name(&mut names, &param_inputs[j]);
        proof {
            let all = name_texts(param_inputs@);
            assert(all.take(j + 1) =~= all.take(j as int).push(all[j as int]));
            assert forall|name: Seq<char>| name_texts(names@).contains(name) <==> name_texts(
                explicit_inputs@,
            ).contains(name) || all.take(j + 1).contains(name) by {
                lemma_contains_push(all.take(j as int), all[j as int], name);
            }
        }
        j += 1;
    }
    assert(name_texts(param_inputs@).take(j as int) =~= name_texts(param_inputs@));
    names
}

/// The names of the inputs that the type of a module is made from: those
/// of a flake's file, and none for any other module.
pub fn module_input_names(kind: &ModuleKind) -> (names: Option<Vec<String>>)
    ensures
        match *kind {
            ModuleKind::Unknown => names is None,
            ModuleKind::FlakeNix { explicit_inputs, param_inputs } => names is Some && names_sorted(
                name_texts(names->0@),
            ) && forall|name: Seq<char>|
                name_texts(names->0@).contains(name) <==> name_texts(explicit_inputs@).contains(name)
                    || name_texts(param_inputs@).contains(name),
        },
{
    match kind {
        ModuleKind::Unknown => None,
        ModuleKind::FlakeNix { explicit_inputs, param_inputs } => Some(
            flake_input_names(explicit_inputs, param_inputs),
        ),
    }
}

} // verus!
