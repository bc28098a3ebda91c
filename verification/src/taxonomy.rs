//! Stable failure categories for Soroban contract crashes, and grouping of
//! seeds by category.
use vstd::prelude::*;

use crate::enum_flip::{is_invalid_enum_tag_payload, spec_is_invalid_enum_tag};
use crate::{CaseSeed, SeedView};

verus! {

/// Stable failure categories for Soroban contract crashes.
///
/// | Variant          | Failure domain                                              |
/// |------------------|-------------------------------------------------------------|
/// | `Auth`           | Missing or invalid authorization entry                      |
/// | `Budget`         | CPU or memory execution budget exceeded                     |
/// | `State`          | Ledger entry absent, wrong type, or version conflict        |
/// | `Xdr`            | XDR encoding / decoding error — malformed or out-of-range  |
/// | `InvalidEnumTag` | Enum-like payload carried an unsupported discriminant tag   |
/// | `EmptyInput`     | Seed payload was empty; no execution was attempted          |
/// | `OversizedInput` | Seed payload exceeded the maximum allowable size            |
/// | `Unknown`        | Raw failure did not match any known category                |
#[derive(Debug, Clone, Copy, PartialEq, Eq, Hash, Structural)]
pub enum FailureClass {
    Auth,
    Budget,
    State,
    Xdr,
    InvalidEnumTag,
    EmptyInput,
    OversizedInput,
    Unknown,
}

impl FailureClass {
    /// All variants in declaration order, useful for iteration and reporting.
    pub const ALL: [FailureClass; 8] = [
        FailureClass::Auth,
        FailureClass::Budget,
        FailureClass::State,
        FailureClass::Xdr,
        FailureClass::InvalidEnumTag,
        FailureClass::EmptyInput,
        FailureClass::OversizedInput,
        FailureClass::Unknown,
    ];

    /// The stable label of the class.
    pub open spec fn spec_label(self) -> Seq<char> {
        match self {
            FailureClass::Auth => "auth"@,
            FailureClass::Budget => "budget"@,
            FailureClass::State => "state"@,
            FailureClass::Xdr => "xdr"@,
            FailureClass::InvalidEnumTag => "invalid-enum-tag"@,
            FailureClass::EmptyInput => "empty-input"@,
            FailureClass::OversizedInput => "oversized-input"@,
            FailureClass::Unknown => "unknown"@,
        }
    }

    /// Stable string label used in signatures, reports, and dashboards.
    ///
    /// The returned string never changes across versions, making it safe to
    /// persist in artifact storage or use as a map key.
    pub fn as_str(self) -> (r: &'static str)
        ensures
            r@ == self.spec_label(),
    {
        match self {
            FailureClass::Auth => "auth",
            FailureClass::Budget => "budget",
            FailureClass::State => "state",
            FailureClass::Xdr => "xdr",
            FailureClass::InvalidEnumTag => "invalid-enum-tag",
            FailureClass::EmptyInput => "empty-input",
            FailureClass::OversizedInput => "oversized-input",
            FailureClass::Unknown => "unknown",
        }
    }

    /// The label as an owned string (what displaying the class prints).
    pub fn to_string(&self) -> (r: String)
        ensures
            r@ == self.spec_label(),
    {
        self.as_str().to_owned()
    }
}

/// The class of a seed: empty, oversized (more than 64 bytes), invalid enum tag,
/// or by the range of the first byte.
pub open spec fn spec_classify_failure(payload: Seq<u8>) -> FailureClass {
    if payload.len() == 0 {
        FailureClass::EmptyInput
    } else if payload.len() > 64 {
        FailureClass::OversizedInput
    } else if spec_is_invalid_enum_tag(payload) {
        FailureClass::InvalidEnumTag
    } else if payload[0] <= 0x1F {
        FailureClass::Xdr
    } else if payload[0] <= 0x5F {
        FailureClass::State
    } else if payload[0] <= 0x9F {
        FailureClass::Budget
    } else {
        FailureClass::Auth
    }
}

/// Classifies a seed into a stable [`FailureClass`] based on its payload.
///
/// ## Classification rules (applied in priority order)
///
/// 1. **EmptyInput** — `payload` is empty.
/// 2. **OversizedInput** — `payload.len() > 64`.
/// 3. **InvalidEnumTag** — the payload is in enum layout with an unsupported tag.
/// 4. **Byte discriminant** derived from `payload[0]`:
///    `0x00..=0x1F` Xdr, `0x20..=0x5F` State, `0x60..=0x9F` Budget, `0xA0..=0xFF` Auth.
///
/// The classification is purely deterministic — no randomness, no I/O.
pub fn classify_failure(seed: &CaseSeed) -> (r: FailureClass)
    ensures
        r == spec_classify_failure(seed.payload@),
{
    if seed.payload.len() == 0 {
        return FailureClass::EmptyInput;
    }
    if seed.payload.len() > 64 {
        return FailureClass::OversizedInput;
    }
    if is_invalid_enum_tag_payload(seed.payload.as_slice()) {
        return FailureClass::InvalidEnumTag;
    }
    let b = seed.payload[0];
    if b <= 0x1F {
        FailureClass::Xdr
    } else if b <= 0x5F {
        FailureClass::State
    } else if b <= 0x9F {
        FailureClass::Budget
    } else {
        FailureClass::Auth
    }
}

/// Seeds grouped by [`FailureClass`].
///
/// Each class that occurs has one group, holding its seeds in input order;
/// groups are kept in the order in which their class first occurs, and no class
/// has two groups.
pub struct ClassGroups<'a> {
    groups: Vec<(FailureClass, Vec<&'a CaseSeed>)>,
}

/// The mathematical value of [`ClassGroups`]: each class that occurs, with the
/// values of its seeds in input order.
pub open spec fn spec_group_view<'a>(g: (FailureClass, Vec<&'a CaseSeed>)) -> (FailureClass, Seq<
    SeedView,
>) {
    (g.0, g.1@.map_values(|s: &CaseSeed| s@))
}

impl<'a> View for ClassGroups<'a> {
    type V = Seq<(FailureClass, Seq<SeedView>)>;

    closed spec fn view(&self) -> Seq<(FailureClass, Seq<SeedView>)> {
        self.groups@.map_values(|g: (FailureClass, Vec<&'a CaseSeed>)| spec_group_view(g))
    }
}

/// The seeds of `seeds` in class `class`, in input order.
pub open spec fn spec_members(seeds: Seq<SeedView>, class: FailureClass) -> Seq<SeedView> {
    seeds.filter(|s: SeedView| spec_classify_failure(s.payload) == class)
}

/// The classes of `seeds` in order of first occurrence, each once.
pub open spec fn spec_first_occurrences(seeds: Seq<SeedView>) -> Seq<FailureClass>
    decreases seeds.len(),
{
    if seeds.len() == 0 {
        seq![]
    } else {
        let prev = spec_first_occurrences(seeds.drop_last());
        let c = spec_classify_failure(seeds.last().payload);
        if prev.contains(c) {
            prev
        } else {
            prev.push(c)
        }
    }
}

/// The grouping of `seeds`: for each class in order of first occurrence, the
/// seeds of that class in input order.
pub open spec fn spec_group_by_class(seeds: Seq<SeedView>) -> Seq<(FailureClass, Seq<SeedView>)> {
    spec_first_occurrences(seeds).map_values(|c: FailureClass| (c, spec_members(seeds, c)))
}

impl<'a> ClassGroups<'a> {
    /// Whether some seed falls in `class`.
    pub fn contains_key(&self, class: &FailureClass) -> (r: bool)
        ensures
            r == exists|i: int| 0 <= i < self@.len() && self@[i].0 == *class,
    {
        let mut i: usize = 0;
        while i < self.groups.len()
            invariant
                i <= self.groups@.len(),
                forall|k: int| 0 <= k < i ==> self@[k].0 != *class,
            decreases self.groups.len() - i,
        {
            if self.groups[i].0 == *class {
                assert(self@[i as int].0 == *class);
                return true;
            }
            i = i + 1;
        }
        false
    }

    /// The seeds in `class`, in input order, if any seed falls in it.
    pub fn get(&self, class: &FailureClass) -> (r: Option<&Vec<&'a CaseSeed>>)
        ensures
            match r {
                None => forall|i: int| 0 <= i < self@.len() ==> self@[i].0 != *class,
                Some(g) => exists|i: int|
                    0 <= i < self@.len() && self@[i].0 == *class && self@[i].1 == g@.map_values(
                        |s: &CaseSeed| s@,
                    ),
            },
    {
        let mut i: usize = 0;
        while i < self.groups.len()
            invariant
                i <= self.groups@.len(),
                forall|k: int| 0 <= k < i ==> self@[k].0 != *class,
            decreases self.groups.len() - i,
        {
            if self.groups[i].0 == *class {
                assert(self@[i as int] == spec_group_view(self.groups@[i as int]));
                return Some(&self.groups[i].1);
            }
            i = i + 1;
        }
        None
    }

    /// Number of classes that occur.
    pub fn len(&self) -> (r: usize)
        ensures
            r == self@.len(),
    {
        self.groups.len()
    }

    /// Whether no class occurs (no seeds were grouped).
    pub fn is_empty(&self) -> (r: bool)
        ensures
            r == (self@.len() == 0),
    {
        self.groups.len() == 0
    }
}

/// The classes of `seeds` in order of first occurrence.
fn first_occurrences(seeds: &[CaseSeed]) -> (r: Vec<FailureClass>)
    ensures
        r@ == spec_first_occurrences(seeds@.map_values(|s: CaseSeed| s@)),
{
    let ghost all = seeds@.map_values(|s: CaseSeed| s@);
    let mut classes: Vec<FailureClass> = Vec::new();
    let mut i: usize = 0;
    while i < seeds.len()
        invariant
            i <= seeds@.len(),
            all == seeds@.map_values(|s: CaseSeed| s@),
            classes@ == spec_first_occurrences(all.subrange(0, i as int)),
        decreases seeds.len() - i,
    {
        let class = classify_failure(&seeds[i]);
        assert(all.subrange(0, i + 1).drop_last() =~= all.subrange(0, i as int));
        let mut j: usize = 0;
        let mut found = false;
        while j < classes.len()
            invariant
                j <= classes@.len(),
                found == (exists|k: int| 0 <= k < j && classes@[k] == class),
            decreases classes.len() - j,
        {
            if classes[j] == class {
                found = true;
            }
            j = j + 1;
        }
        if !found {
            classes.push(class);
        }
        i = i + 1;
    }
    assert(all.subrange(0, i as int) =~= all);
    classes
}

/// The seeds of `seeds` in `class`, in input order.
fn members_of<'a>(seeds: &'a [CaseSeed], class: FailureClass) -> (r: Vec<&'a CaseSeed>)
    ensures
        r@.map_values(|s: &CaseSeed| s@) == spec_members(seeds@.map_values(|s: CaseSeed| s@), class),
{
    let ghost all = seeds@.map_values(|s: CaseSeed| s@);
    let mut out: Vec<&'a CaseSeed> = Vec::new();
    let mut i: usize = 0;
    while i < seeds.len()
        invariant
            i <= seeds@.len(),
            all == seeds@.map_values(|s: CaseSeed| s@),
            out@.map_values(|s: &CaseSeed| s@) =~= spec_members(all.subrange(0, i as int), class),
        decreases seeds.len() - i,
    {
        let seed = &seeds[i];
        let ghost prefix = all.subrange(0, i as int);
        assert(all.subrange(0, i + 1) =~= prefix.push(seed@));
        proof {
            lemma_members_push(prefix, seed@);
        }
        let ghost before = out@;
        if classify_failure(seed) == class {
            out.push(seed);
            assert(out@.map_values(|s: &CaseSeed| s@) =~= before.map_values(|s: &CaseSeed| s@).push(
                seed@,
            ));
        }
        i = i + 1;
    }
    assert(all.subrange(0, i as int) =~= all);
    out
}

/// Groups `seeds` by their [`FailureClass`].
///
/// Seeds that share a class are collected in input order. Classes with no
/// matching seeds are absent — iterate [`FailureClass::ALL`] if you need a
/// complete, zero-padded breakdown.
pub fn group_by_class<'a>(seeds: &'a [CaseSeed]) -> (r: ClassGroups<'a>)
    ensures
        r@ == spec_group_by_class(seeds@.map_values(|s: CaseSeed| s@)),
{
    let ghost all = seeds@.map_values(|s: CaseSeed| s@);
    let classes = first_occurrences(seeds);
    let mut groups: Vec<(FailureClass, Vec<&'a CaseSeed>)> = Vec::new();
    let mut k: usize = 0;
    while k < classes.len()
        invariant
            k <= classes@.len(),
            all == seeds@.map_values(|s: CaseSeed| s@),
            classes@ == spec_first_occurrences(all),
            groups@.map_values(|g: (FailureClass, Vec<&'a CaseSeed>)| spec_group_view(g))
                =~= spec_group_by_class(all).subrange(0, k as int),
        decreases classes.len() - k,
    {
        let class = classes[k];
        let members = members_of(seeds, class);
        let ghost before = groups@;
        groups.push((class, members));
        assert(groups@.map_values(|g: (FailureClass, Vec<&'a CaseSeed>)| spec_group_view(g))
            =~= before.map_values(|g: (FailureClass, Vec<&'a CaseSeed>)| spec_group_view(g)).push(
            (class, spec_members(all, class)),
        ));
        k = k + 1;
    }
    let r = ClassGroups { groups };
    assert(spec_group_by_class(all).subrange(0, k as int) =~= spec_group_by_class(all));
    r
}

/// No class appears twice in the order of first occurrence.
pub proof fn lemma_first_occurrences_distinct(seeds: Seq<SeedView>)
    ensures
        spec_first_occurrences(seeds).no_duplicates(),
    decreases seeds.len(),
{
    if seeds.len() > 0 {
        lemma_first_occurrences_distinct(seeds.drop_last());
    }
}

/// A class has a group exactly when some seed falls in it, and then the group
/// holds exactly the seeds of that class, in input order; no class has two groups.
pub proof fn law_groups_partition_seeds(seeds: Seq<SeedView>, class: FailureClass)
    ensures
        spec_first_occurrences(seeds).no_duplicates(),
        spec_first_occurrences(seeds).contains(class) <==> spec_members(seeds, class).len() > 0,
    decreases seeds.len(),
{
    lemma_first_occurrences_distinct(seeds);
    if seeds.len() > 0 {
        law_groups_partition_seeds(seeds.drop_last(), class);
        assert(seeds.drop_last().push(seeds.last()) =~= seeds);
        lemma_members_push(seeds.drop_last(), seeds.last());
        assert(spec_members(seeds, class) == spec_members(seeds.drop_last().push(seeds.last()), class));
        let prev = spec_first_occurrences(seeds.drop_last());
        let c = spec_classify_failure(seeds.last().payload);
        if !prev.contains(c) {
            assert(prev.push(c)[prev.len() as int] == c);
            if prev.push(c).contains(class) && c != class {
                let k = choose|k: int| 0 <= k < prev.len() + 1 && prev.push(c)[k] == class;
                assert(prev[k] == class);
            }
            if prev.contains(class) {
                let k = choose|k: int| 0 <= k < prev.len() && prev[k] == class;
                assert(prev.push(c)[k] == class);
            }
        }
    } else {
        reveal_with_fuel(Seq::filter, 1);
        assert(spec_members(seeds, class).len() == 0);
    }
}

/// Appending a seed adds it to the members of its own class only.
proof fn lemma_members_push(prefix: Seq<SeedView>, s: SeedView)
    ensures
        forall|c: FailureClass|
            #![trigger spec_members(prefix.push(s), c)]
            spec_members(prefix.push(s), c) == if spec_classify_failure(s.payload) == c {
                spec_members(prefix, c).push(s)
            } else {
                spec_members(prefix, c)
            },
{
    assert forall|c: FailureClass| #![trigger spec_members(prefix.push(s), c)]
        spec_members(prefix.push(s), c) == if spec_classify_failure(s.payload) == c {
            spec_members(prefix, c).push(s)
        } else {
            spec_members(prefix, c)
        } by {
        let f = |x: SeedView| spec_classify_failure(x.payload) == c;
        assert(prefix.push(s).drop_last() =~= prefix);
        reveal_with_fuel(Seq::filter, 1);
    }
}

} // verus!
