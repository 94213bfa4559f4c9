//! Resolution of SoundFont generators into a flat parameter set.
//!
//! A SoundFont describes a voice indirectly: a preset zone points at an
//! instrument, an instrument zone points at a sample, and each zone carries a
//! list of *generators* (synthesis parameters). To articulate a note the
//! synthesizer must merge those layers into a single value per generator.
//!
//! The merge rules from the SoundFont 2 specification are:
//!
//! * Instrument-level generators are **absolute**: a later zone *replaces* the
//!   value of an earlier one (global zone, then the matching local zone).
//! * Preset-level generators are **relative**: they are *added* on top of the
//!   resolved instrument value.
//!
//! [`Gens`] holds one [`i32`] per generator and implements exactly that.

use vstd::prelude::*;

use crate::soundfont::generator::{GeneratorType, generator_code};
use crate::soundfont::model::{Generator, GeneratorAmount, Range, Zone};

verus! {

/// Number of distinct generators (`GeneratorType::COUNT`).
pub const N: usize = 61;

/// The SoundFont default of the generator with code `code` (spec table,
/// "Default Value"): zero but for the filter cutoff, the LFO and envelope
/// delays and times, the scale tuning and the three "unset" markers.
pub open spec fn default_value(code: int) -> i32 {
    if code == 8 {
        13_500i32
    } else if code == 21 || code == 23 || code == 25 || code == 26 || code == 27 || code == 28
        || code == 30 || code == 33 || code == 34 || code == 35 || code == 36 || code == 38 {
        -12_000i32
    } else if code == 56 {
        100i32
    } else if code == 58 || code == 46 || code == 47 {
        -1i32
    } else {
        0i32
    }
}

/// The generators whose SoundFont default is not zero, with that default.
/// Everything else starts at `0`.
pub fn default_of(g: GeneratorType) -> (v: i32)
    ensures
        v == default_value(generator_code(g) as int),
{
    match g {
        GeneratorType::INITIAL_FILTER_CUTOFF_FREQUENCY => 13_500,
        GeneratorType::DELAY_MODULATION_LFO => -12_000,
        GeneratorType::DELAY_VIBRATO_LFO => -12_000,
        GeneratorType::DELAY_MODULATION_ENVELOPE => -12_000,
        GeneratorType::ATTACK_MODULATION_ENVELOPE => -12_000,
        GeneratorType::HOLD_MODULATION_ENVELOPE => -12_000,
        GeneratorType::DECAY_MODULATION_ENVELOPE => -12_000,
        GeneratorType::RELEASE_MODULATION_ENVELOPE => -12_000,
        GeneratorType::DELAY_VOLUME_ENVELOPE => -12_000,
        GeneratorType::ATTACK_VOLUME_ENVELOPE => -12_000,
        GeneratorType::HOLD_VOLUME_ENVELOPE => -12_000,
        GeneratorType::DECAY_VOLUME_ENVELOPE => -12_000,
        GeneratorType::RELEASE_VOLUME_ENVELOPE => -12_000,
        GeneratorType::SCALE_TUNING => 100,
        GeneratorType::OVERRIDING_ROOT_KEY => -1,
        GeneratorType::KEY_NUMBER => -1,
        GeneratorType::VELOCITY => -1,
        _ => 0,
    }
}

/// A resolved set of generator values, one slot per [`GeneratorType`].
#[derive(Debug, Clone, Copy)]
pub struct Gens {
    v: [i32; N],
}

impl View for Gens {
    type V = Seq<i32>;

    closed spec fn view(&self) -> Seq<i32> {
        self.v@
    }
}

/// The SoundFont defaults, one per generator code.
pub open spec fn defaults_spec() -> Seq<i32> {
    Seq::new(61, |i: int| default_value(i))
}

/// A generator's scalar value, or `None` for a range.
pub open spec fn scalar_spec(a: GeneratorAmount) -> Option<i32> {
    match a {
        GeneratorAmount::Short(s) => Some(s as i32),
        GeneratorAmount::Word(w) => Some(w as i32),
        GeneratorAmount::Range(_) => None,
    }
}

/// The slots after replacing, in order, the slot of each scalar generator
/// of `gs` whose type has a slot.
pub open spec fn set_spec(v: Seq<i32>, gs: Seq<Generator>) -> Seq<i32>
    decreases gs.len(),
{
    if gs.len() == 0 {
        v
    } else {
        let w = set_spec(v, gs.drop_last());
        let c = generator_code(gs.last().kind) as int;
        match scalar_spec(gs.last().amount) {
            Some(x) => if c < 61 {
                w.update(c, x)
            } else {
                w
            },
            None => w,
        }
    }
}

/// The slots after adding, in order, each scalar generator of `gs` to the
/// slot of its type.
pub open spec fn add_spec(v: Seq<i32>, gs: Seq<Generator>) -> Seq<i32>
    decreases gs.len(),
{
    if gs.len() == 0 {
        v
    } else {
        let w = add_spec(v, gs.drop_last());
        let c = generator_code(gs.last().kind) as int;
        match scalar_spec(gs.last().amount) {
            Some(x) => if c < 61 {
                w.update(c, (w[c] + x) as i32)
            } else {
                w
            },
            None => w,
        }
    }
}

/// Every sum `add_spec` forms on the way fits an `i32`.
pub open spec fn add_fits(v: Seq<i32>, gs: Seq<Generator>) -> bool
    decreases gs.len(),
{
    if gs.len() == 0 {
        true
    } else {
        let w = add_spec(v, gs.drop_last());
        let c = generator_code(gs.last().kind) as int;
        &&& add_fits(v, gs.drop_last())
        &&& match scalar_spec(gs.last().amount) {
            Some(x) => c < 61 ==> i32::MIN <= w[c] + x <= i32::MAX,
            None => true,
        }
    }
}

/// The value of generator `g` among the slots `v`.
pub open spec fn get_spec(v: Seq<i32>, g: GeneratorType) -> i32 {
    let c = generator_code(g) as int;
    if c < 61 {
        v[c]
    } else {
        0
    }
}

impl Gens {
    /// A set of generator values has one slot per generator code, 61 in all.
    pub proof fn lemma_slots(&self)
        ensures
            self@.len() == 61,
    {
    }
}

impl Gens {
    /// The SoundFont default generator values (spec table, "Default Value").
    pub fn defaults() -> (gens: Self)
        ensures
            gens@ == defaults_spec(),
    {
        let mut v = [0i32; N];
        let mut i: usize = 0;
        while i < N
            invariant
                i <= 61,
                v@.len() == 61,
                forall|k: int| 0 <= k < i ==> v@[k] == default_value(k),
            decreases 61 - i,
        {
            proof {
                crate::soundfont::generator::lemma_generator_of_code(i as u16);
            }
            match GeneratorType::from_u16(i as u16) {
                Some(g) => {
                    v[i] = default_of(g);
                },
                None => {},
            }
            i = i + 1;
        }
        let gens = Self { v };
        assert(gens@ =~= defaults_spec());
        gens
    }

    /// Reads a generator value (`0` for `COUNT`, which has no slot).
    pub fn get(&self, g: GeneratorType) -> (v: i32)
        ensures
            v == get_spec(self@, g),
    {
        let c = g.to_u16() as usize;
        if c < N {
            self.v[c]
        } else {
            0
        }
    }

    /// Absolute merge: each scalar generator in `zone` *replaces* the slot.
    pub fn apply_set(&mut self, zone: &Zone)
        ensures
            final(self)@ == set_spec(old(self)@, zone.generators@),
    {
        let gs = &zone.generators;
        let mut i: usize = 0;
        while i < gs.len()
            invariant
                i <= gs@.len(),
                self@ == set_spec(old(self)@, gs@.take(i as int)),
            decreases gs@.len() - i,
        {
            let g = gs[i];
            proof {
                assert(gs@.take(i + 1).drop_last() =~= gs@.take(i as int));
            }
            let c = g.kind.to_u16() as usize;
            match scalar(g.amount) {
                Some(value) => {
                    if c < N {
                        self.v[c] = value;
                    }
                },
                None => {},
            }
            i = i + 1;
        }
        assert(gs@.take(i as int) =~= gs@);
    }

    /// Relative merge: each scalar generator in `zone` is *added* to the
    /// slot.
    pub fn apply_add(&mut self, zone: &Zone)
        requires
            add_fits(old(self)@, zone.generators@),
        ensures
            final(self)@ == add_spec(old(self)@, zone.generators@),
    {
        let gs = &zone.generators;
        let mut i: usize = 0;
        proof {
            lemma_add_fits_prefix(old(self)@, gs@, gs@.len() as int);
            assert(gs@.take(gs@.len() as int) =~= gs@);
        }
        while i < gs.len()
            invariant
                i <= gs@.len(),
                add_fits(old(self)@, gs@),
                self@ == add_spec(old(self)@, gs@.take(i as int)),
            decreases gs@.len() - i,
        {
            let g = gs[i];
            proof {
                assert(gs@.take(i + 1).drop_last() =~= gs@.take(i as int));
                lemma_add_fits_prefix(old(self)@, gs@, i + 1);
            }
            let c = g.kind.to_u16() as usize;
            match scalar(g.amount) {
                Some(value) => {
                    if c < N {
                        self.v[c] = self.v[c] + value;
                    }
                },
                None => {},
            }
            i = i + 1;
        }
        assert(gs@.take(i as int) =~= gs@);
    }
}

impl Gens {
    /// Whether adding `zone` with [`apply_add`](Gens::apply_add) keeps every
    /// slot within `i32`.
    pub fn add_fits_with(&self, zone: &Zone) -> (b: bool)
        ensures
            b == add_fits(self@, zone.generators@),
    {
        let gs = &zone.generators;
        let mut w = *self;
        let mut i: usize = 0;
        assert(gs@.take(0) =~= Seq::<Generator>::empty());
        while i < gs.len()
            invariant
                i <= gs@.len(),
                gs@ == zone.generators@,
                w@ == add_spec(self@, gs@.take(i as int)),
                add_fits(self@, gs@.take(i as int)),
            decreases gs@.len() - i,
        {
            let g = gs[i];
            proof {
                assert(gs@.take(i + 1).drop_last() =~= gs@.take(i as int));
            }
            let c = g.kind.to_u16() as usize;
            match scalar(g.amount) {
                Some(x) => {
                    if c < N {
                        let sum: i64 = w.v[c] as i64 + x as i64;
                        if sum < -2147483648 || sum > 2147483647 {
                            proof {
                                if add_fits(self@, gs@) {
                                    lemma_add_fits_prefix(self@, gs@, i + 1);
                                }
                            }
                            return false;
                        }
                        w.v[c] = sum as i32;
                    }
                },
                None => {},
            }
            i = i + 1;
        }
        assert(gs@.take(i as int) =~= gs@);
        true
    }
}

/// The sums of a prefix of the generators fit when those of all of them do.
pub proof fn lemma_add_fits_prefix(v: Seq<i32>, gs: Seq<Generator>, n: int)
    requires
        0 <= n <= gs.len(),
        add_fits(v, gs),
    ensures
        add_fits(v, gs.take(n)),
    decreases gs.len() - n,
{
    if n < gs.len() {
        assert(gs.drop_last() =~= gs.take(gs.len() - 1));
        lemma_add_fits_prefix(v, gs.drop_last(), n);
        assert(gs.drop_last().take(n) =~= gs.take(n));
    } else {
        assert(gs.take(n) =~= gs);
    }
}

/// Extracts a generator's scalar value, or `None` for range generators.
pub fn scalar(amount: GeneratorAmount) -> (r: Option<i32>)
    ensures
        r == scalar_spec(amount),
{
    match amount {
        GeneratorAmount::Short(s) => Some(s as i32),
        GeneratorAmount::Word(w) => Some(w as i32),
        GeneratorAmount::Range(_) => None,
    }
}

/// The range of the first generator of `gs` of type `kind` that carries a
/// range.
pub open spec fn range_spec(gs: Seq<Generator>, kind: GeneratorType) -> Option<Range>
    decreases gs.len(),
{
    if gs.len() == 0 {
        None
    } else {
        match gs[0].amount {
            GeneratorAmount::Range(r) => if gs[0].kind == kind {
                Some(r)
            } else {
                range_spec(gs.drop_first(), kind)
            },
            _ => range_spec(gs.drop_first(), kind),
        }
    }
}

/// The index carried by the first generator of `gs` of type `kind` that
/// carries a word (a signed word is taken by its bits).
pub open spec fn index_spec(gs: Seq<Generator>, kind: GeneratorType) -> Option<u16>
    decreases gs.len(),
{
    if gs.len() == 0 {
        None
    } else if gs[0].kind != kind {
        index_spec(gs.drop_first(), kind)
    } else {
        match gs[0].amount {
            GeneratorAmount::Word(w) => Some(w),
            GeneratorAmount::Short(s) => Some(s as u16),
            GeneratorAmount::Range(_) => index_spec(gs.drop_first(), kind),
        }
    }
}

/// Returns the range carried by generator `kind` in `zone`, if any.
pub fn range_of(zone: &Zone, kind: GeneratorType) -> (r: Option<Range>)
    ensures
        r == range_spec(zone.generators@, kind),
{
    let gs = &zone.generators;
    let mut i: usize = 0;
    assert(gs@.skip(0) =~= gs@);
    while i < gs.len()
        invariant
            i <= gs@.len(),
            gs@ == zone.generators@,
            range_spec(gs@, kind) == range_spec(gs@.skip(i as int), kind),
        decreases gs@.len() - i,
    {
        let g = gs[i];
        assert(gs@.skip(i as int).len() > 0);
        assert(gs@.skip(i as int)[0] == g);
        assert(gs@.skip(i as int).drop_first() =~= gs@.skip(i + 1));
        match g.amount {
            GeneratorAmount::Range(r) => {
                if g.kind == kind {
                    return Some(r);
                }
            },
            _ => {},
        }
        i = i + 1;
    }
    None
}

/// Returns the unsigned index carried by generator `kind` (e.g.
/// `Instrument`, `SampleID`), if present.
pub fn index_of(zone: &Zone, kind: GeneratorType) -> (r: Option<u16>)
    ensures
        r == index_spec(zone.generators@, kind),
{
    let gs = &zone.generators;
    let mut i: usize = 0;
    assert(gs@.skip(0) =~= gs@);
    while i < gs.len()
        invariant
            i <= gs@.len(),
            gs@ == zone.generators@,
            index_spec(gs@, kind) == index_spec(gs@.skip(i as int), kind),
        decreases gs@.len() - i,
    {
        let g = gs[i];
        assert(gs@.skip(i as int).len() > 0);
        assert(gs@.skip(i as int)[0] == g);
        assert(gs@.skip(i as int).drop_first() =~= gs@.skip(i + 1));
        if g.kind == kind {
            match g.amount {
                GeneratorAmount::Word(w) => return Some(w),
                GeneratorAmount::Short(s) => return Some(s as u16),
                GeneratorAmount::Range(_) => {},
            }
        }
        i = i + 1;
    }
    None
}

/// Whether a zone admits `key` and `vel`: a missing range generator means
/// "matches everything" for that axis.
pub open spec fn zone_matches_spec(gs: Seq<Generator>, key: u8, vel: u8) -> bool {
    &&& match range_spec(gs, GeneratorType::KEY_RANGE) {
        Some(r) => r.low <= key <= r.high,
        None => true,
    }
    &&& match range_spec(gs, GeneratorType::VELOCITY_RANGE) {
        Some(r) => r.low <= vel <= r.high,
        None => true,
    }
}

/// Whether generator `i` of `gs` is the first of type `kind` that carries a
/// range.
pub open spec fn first_range_at(gs: Seq<Generator>, kind: GeneratorType, i: int) -> bool {
    &&& 0 <= i < gs.len()
    &&& gs[i].kind == kind
    &&& gs[i].amount is Range
    &&& forall|j: int| 0 <= j < i ==> !(gs[j].kind == kind && gs[j].amount is Range)
}

/// Whether `x` lies in the range carried by generator `g`.
pub open spec fn within(g: Generator, x: u8) -> bool {
    match g.amount {
        GeneratorAmount::Range(r) => r.low <= x <= r.high,
        _ => true,
    }
}

/// The range a zone's generators give for `kind` is the one carried by
/// the first generator of that type with a range, and none when there is
/// no such generator.
proof fn lemma_range_is_first(gs: Seq<Generator>, kind: GeneratorType)
    ensures
        match range_spec(gs, kind) {
            Some(r) => exists|i: int| first_range_at(gs, kind, i) && gs[i].amount == GeneratorAmount::Range(r),
            None => forall|j: int| 0 <= j < gs.len() ==> !(gs[j].kind == kind && gs[j].amount is Range),
        },
    decreases gs.len(),
{
    if gs.len() > 0 {
        let t = gs.drop_first();
        lemma_range_is_first(t, kind);
        let here = gs[0].kind == kind && gs[0].amount is Range;
        if here {
            assert(first_range_at(gs, kind, 0));
        } else {
            match range_spec(t, kind) {
                Some(r) => {
                    let i = choose|i: int| first_range_at(t, kind, i) && t[i].amount == GeneratorAmount::Range(r);
                    assert forall|j: int| 0 <= j < i + 1 implies !(gs[j].kind == kind && gs[j].amount is Range) by {
                        if j > 0 {
                            assert(gs[j] == t[j - 1]);
                        }
                    }
                    assert(gs[i + 1] == t[i]);
                    assert(first_range_at(gs, kind, i + 1));
                },
                None => {
                    assert forall|j: int| 0 <= j < gs.len() implies !(gs[j].kind == kind && gs[j].amount is Range) by {
                        if j > 0 {
                            assert(gs[j] == t[j - 1]);
                        }
                    }
                },
            }
        }
    }
}

/// A zone admits a key and a velocity exactly when each lies in the range
/// of the first key-range generator and of the first velocity-range
/// generator the zone carries; an axis with no such generator admits
/// everything.
pub proof fn lemma_zone_admits(gs: Seq<Generator>, key: u8, vel: u8)
    ensures
        zone_matches_spec(gs, key, vel) <==> (forall|i: int|
            #[trigger] first_range_at(gs, GeneratorType::KEY_RANGE, i) ==> within(gs[i], key))
            && (forall|i: int|
            #[trigger] first_range_at(gs, GeneratorType::VELOCITY_RANGE, i) ==> within(gs[i], vel)),
{
    lemma_range_is_first(gs, GeneratorType::KEY_RANGE);
    lemma_range_is_first(gs, GeneratorType::VELOCITY_RANGE);
    assert forall|i: int, j: int|
        first_range_at(gs, GeneratorType::KEY_RANGE, i) && first_range_at(gs, GeneratorType::KEY_RANGE, j)
            implies i == j by {
        if i < j {
            assert(!(gs[i].kind == GeneratorType::KEY_RANGE && gs[i].amount is Range));
        } else if j < i {
            assert(!(gs[j].kind == GeneratorType::KEY_RANGE && gs[j].amount is Range));
        }
    }
    assert forall|i: int, j: int|
        first_range_at(gs, GeneratorType::VELOCITY_RANGE, i) && first_range_at(
            gs,
            GeneratorType::VELOCITY_RANGE,
            j,
        ) implies i == j by {
        if i < j {
            assert(!(gs[i].kind == GeneratorType::VELOCITY_RANGE && gs[i].amount is Range));
        } else if j < i {
            assert(!(gs[j].kind == GeneratorType::VELOCITY_RANGE && gs[j].amount is Range));
        }
    }
}

/// Whether `zone` admits `key`/`vel` given its `KeyRange`/`VelocityRange`.
///
/// A missing range generator means "matches everything" for that axis.
pub fn zone_matches(zone: &Zone, key: u8, vel: u8) -> (b: bool)
    ensures
        b == zone_matches_spec(zone.generators@, key, vel),
{
    let key_ok = match range_of(zone, GeneratorType::KEY_RANGE) {
        Some(r) => key >= r.low && key <= r.high,
        None => true,
    };
    let vel_ok = match range_of(zone, GeneratorType::VELOCITY_RANGE) {
        Some(r) => vel >= r.low && vel <= r.high,
        None => true,
    };
    key_ok && vel_ok
}

/// The value the last scalar generator of `gs` with code `c` carries.
pub open spec fn last_set(gs: Seq<Generator>, c: int) -> Option<i32>
    decreases gs.len(),
{
    if gs.len() == 0 {
        None
    } else {
        match scalar_spec(gs.last().amount) {
            Some(x) => if generator_code(gs.last().kind) == c {
                Some(x)
            } else {
                last_set(gs.drop_last(), c)
            },
            None => last_set(gs.drop_last(), c),
        }
    }
}

/// The sum of the scalar generators of `gs` with code `c`.
pub open spec fn scalar_sum(gs: Seq<Generator>, c: int) -> int
    decreases gs.len(),
{
    if gs.len() == 0 {
        0
    } else {
        let rest = scalar_sum(gs.drop_last(), c);
        match scalar_spec(gs.last().amount) {
            Some(x) => if generator_code(gs.last().kind) == c {
                rest + x
            } else {
                rest
            },
            None => rest,
        }
    }
}

/// An absolute merge leaves each slot at the value of the last generator
/// of the zone that sets it, whatever it held before, and leaves the other
/// slots alone: a later zone replaces what an earlier one set.
pub proof fn lemma_set_replaces(v: Seq<i32>, gs: Seq<Generator>, c: int)
    requires
        v.len() == 61,
        0 <= c < 61,
    ensures
        set_spec(v, gs).len() == 61,
        set_spec(v, gs)[c] == match last_set(gs, c) {
            Some(x) => x,
            None => v[c],
        },
    decreases gs.len(),
{
    if gs.len() > 0 {
        lemma_set_replaces(v, gs.drop_last(), c);
        let w = set_spec(v, gs.drop_last());
        let k = generator_code(gs.last().kind) as int;
        match scalar_spec(gs.last().amount) {
            Some(x) => {
                if k < 61 {
                    lemma_set_replaces(v, gs.drop_last(), k);
                }
            },
            None => {},
        }
    }
}

/// A relative merge adds to each slot the sum of the zone's generators for
/// it.
pub proof fn lemma_add_sums(v: Seq<i32>, gs: Seq<Generator>, c: int)
    requires
        v.len() == 61,
        0 <= c < 61,
        add_fits(v, gs),
    ensures
        add_spec(v, gs).len() == 61,
        add_spec(v, gs)[c] == v[c] + scalar_sum(gs, c),
    decreases gs.len(),
{
    if gs.len() > 0 {
        lemma_add_sums(v, gs.drop_last(), c);
        let k = generator_code(gs.last().kind) as int;
        if k < 61 {
            lemma_add_sums(v, gs.drop_last(), k);
        }
    }
}

} // verus!
