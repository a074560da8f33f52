//! The trigonometry table: sine and cosine of every whole-degree heading, in
//! fixed point.
//!
//! A value `v` of the table stands for the real number `v / SCALE`. Only the
//! first quarter of the sine wave is written out; the rest follows from its
//! symmetries.
use vstd::prelude::*;
use crate::arith::wrap_into;

verus! {

/// The fixed-point representation of 1.
pub const SCALE: i32 = 65536;

/// `sin(d°) * SCALE`, rounded to the nearest integer, for `d` in `0 ..= 90`.
pub open spec fn quarter_wave() -> Seq<i32> {
    seq![
        0i32, 1144, 2287, 3430, 4572, 5712, 6850, 7987, 9121, 10252,
        11380, 12505, 13626, 14742, 15855, 16962, 18064, 19161, 20252, 21336,
        22415, 23486, 24550, 25607, 26656, 27697, 28729, 29753, 30767, 31772,
        32768, 33754, 34729, 35693, 36647, 37590, 38521, 39441, 40348, 41243,
        42126, 42995, 43852, 44695, 45525, 46341, 47143, 47930, 48703, 49461,
        50203, 50931, 51643, 52339, 53020, 53684, 54332, 54963, 55578, 56175,
        56756, 57319, 57865, 58393, 58903, 59396, 59870, 60326, 60764, 61183,
        61584, 61966, 62328, 62672, 62997, 63303, 63589, 63856, 64104, 64332,
        64540, 64729, 64898, 65048, 65177, 65287, 65376, 65446, 65496, 65526,
        65536,
    ]
}

/// A heading brought into `0 .. 360`.
pub open spec fn normalize(heading: int) -> int {
    heading % 360
}

/// Fixed-point sine of a heading in degrees. Any integer is a heading: it is
/// normalized first.
pub open spec fn sin_of(heading: int) -> int {
    let h = normalize(heading);
    if h <= 90 {
        quarter_wave()[h] as int
    } else if h <= 180 {
        quarter_wave()[180 - h] as int
    } else if h <= 270 {
        -(quarter_wave()[h - 180] as int)
    } else {
        -(quarter_wave()[360 - h] as int)
    }
}

/// Fixed-point cosine of a heading in degrees: the sine a quarter turn on.
pub open spec fn cos_of(heading: int) -> int {
    sin_of(heading + 90)
}

/// Every entry of the quarter wave lies between 0 and `SCALE`.
pub proof fn lemma_quarter_wave_bounds(d: int)
    requires
        0 <= d <= 90,
    ensures
        quarter_wave().len() == 91,
        0 <= quarter_wave()[d] <= SCALE,
{
}

/// Sine and cosine never exceed 1 in magnitude.
pub proof fn lemma_trig_bounds(heading: int)
    ensures
        -SCALE <= sin_of(heading) <= SCALE,
        -SCALE <= cos_of(heading) <= SCALE,
{
    let h = normalize(heading);
    let c = normalize(heading + 90);
    lemma_quarter_wave_bounds(if h <= 90 { h } else if h <= 180 { 180 - h } else if h <= 270 { h - 180 } else { 360 - h });
    lemma_quarter_wave_bounds(if c <= 90 { c } else if c <= 180 { 180 - c } else if c <= 270 { c - 180 } else { 360 - c });
}

/// Looks a sine up in the quarter wave by the symmetries of the sine.
fn wave(quarter: &Vec<i32>, heading: usize) -> (r: i32)
    requires
        quarter@ == quarter_wave(),
        heading < 360,
    ensures
        r == sin_of(heading as int),
{
    proof {
        let h = heading as int;
        lemma_quarter_wave_bounds(
            if h <= 90 {
                h
            } else if h <= 180 {
                180 - h
            } else if h <= 270 {
                h - 180
            } else {
                360 - h
            },
        );
    }
    if heading <= 90 {
        quarter[heading]
    } else if heading <= 180 {
        quarter[180 - heading]
    } else if heading <= 270 {
        -quarter[heading - 180]
    } else {
        -quarter[360 - heading]
    }
}

/// Sine and cosine of each of the 360 headings, computed once.
pub struct TrigTable {
    sin: Vec<i32>,
    cos: Vec<i32>,
}

impl TrigTable {
    #[verifier::type_invariant]
    spec fn filled(&self) -> bool {
        &&& self.sin@.len() == 360
        &&& self.cos@.len() == 360
        &&& forall|h: int| 0 <= h < 360 ==> #[trigger] self.sin@[h] == sin_of(h)
        &&& forall|h: int| 0 <= h < 360 ==> #[trigger] self.cos@[h] == cos_of(h)
    }

    /// The stored sine of heading `h`, for `h` in `0 .. 360`.
    pub closed spec fn sin_at(&self, h: int) -> int {
        self.sin@[h] as int
    }

    /// The stored cosine of heading `h`, for `h` in `0 .. 360`.
    pub closed spec fn cos_at(&self, h: int) -> int {
        self.cos@[h] as int
    }

    /// Builds the table.
    pub fn new() -> (table: Self)
        ensures
            forall|h: int| 0 <= h < 360 ==> #[trigger] table.sin_at(h) == sin_of(h),
            forall|h: int| 0 <= h < 360 ==> #[trigger] table.cos_at(h) == cos_of(h),
    {
        let quarter: Vec<i32> = vec![
            0i32, 1144, 2287, 3430, 4572, 5712, 6850, 7987, 9121, 10252,
            11380, 12505, 13626, 14742, 15855, 16962, 18064, 19161, 20252, 21336,
            22415, 23486, 24550, 25607, 26656, 27697, 28729, 29753, 30767, 31772,
            32768, 33754, 34729, 35693, 36647, 37590, 38521, 39441, 40348, 41243,
            42126, 42995, 43852, 44695, 45525, 46341, 47143, 47930, 48703, 49461,
            50203, 50931, 51643, 52339, 53020, 53684, 54332, 54963, 55578, 56175,
            56756, 57319, 57865, 58393, 58903, 59396, 59870, 60326, 60764, 61183,
            61584, 61966, 62328, 62672, 62997, 63303, 63589, 63856, 64104, 64332,
            64540, 64729, 64898, 65048, 65177, 65287, 65376, 65446, 65496, 65526,
            65536,
        ];
        assert(quarter@ =~= quarter_wave());
        let mut sin: Vec<i32> = Vec::new();
        let mut cos: Vec<i32> = Vec::new();
        let mut h: usize = 0;
        while h < 360
            invariant
                h <= 360,
                quarter@ == quarter_wave(),
                sin@.len() == h,
                cos@.len() == h,
                forall|k: int| 0 <= k < h ==> #[trigger] sin@[k] == sin_of(k),
                forall|k: int| 0 <= k < h ==> #[trigger] cos@[k] == cos_of(k),
            decreases 360 - h,
        {
            let quarter_on: usize = if h + 90 >= 360 {
                h + 90 - 360
            } else {
                h + 90
            };
            sin.push(wave(&quarter, h));
            cos.push(wave(&quarter, quarter_on));
            h += 1;
        }
        TrigTable { sin, cos }
    }

    /// Sine of a heading. A heading outside `0 .. 360` is normalized.
    pub fn sin(&self, heading: i32) -> (r: i32)
        ensures
            r == sin_of(heading as int),
            -SCALE <= r <= SCALE,
    {
        proof {
            use_type_invariant(self);
            lemma_trig_bounds(heading as int);
        }
        let h: i128 = wrap_into(heading as i128, 360);
        self.sin[h as usize]
    }

    /// Cosine of a heading. A heading outside `0 .. 360` is normalized.
    pub fn cos(&self, heading: i32) -> (r: i32)
        ensures
            r == cos_of(heading as int),
            -SCALE <= r <= SCALE,
    {
        proof {
            use_type_invariant(self);
            lemma_trig_bounds(heading as int);
        }
        let h: i128 = wrap_into(heading as i128, 360);
        self.cos[h as usize]
    }
}

} // verus!
