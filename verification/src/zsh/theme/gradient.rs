//! Colour math on exact fractions: gradient stops, linear interpolation and
//! hue rotation.

use vstd::prelude::*;

verus! {

/// Stop positions are fixed-point numbers: this many units make up 1.0.
pub const POSITION_SCALE: u32 = 1_000_000;

/// A gradient stop: an RGB colour and its position in units of
/// `1 / POSITION_SCALE`.
pub type GradientStop = ((u8, u8, u8), u32);

/// The stops of a gradient, in the order in which they were configured.
pub type GradientPart = Vec<GradientStop>;

/// A point along a prompt line, held as the exact fraction
/// `numerator / denominator`.
#[derive(Clone, Copy, Debug, PartialEq, Eq)]
pub struct Progress {
    numerator: u64,
    denominator: u64,
}

impl Progress {
    #[verifier::type_invariant]
    spec fn positive_denominator(self) -> bool {
        self.denominator > 0
    }

    /// The fraction's numerator.
    pub closed spec fn num(self) -> int {
        self.numerator as int
    }

    /// The fraction's denominator.
    pub closed spec fn den(self) -> int {
        self.denominator as int
    }

    /// The fraction `numerator / denominator`.
    pub closed spec fn fraction(numerator: u64, denominator: u64) -> Progress {
        Progress { numerator, denominator }
    }

    /// A fraction has the numerator and the denominator that it was made of.
    pub broadcast proof fn lemma_fraction(numerator: u64, denominator: u64)
        ensures
            (#[trigger] Progress::fraction(numerator, denominator)).num() == numerator,
            Progress::fraction(numerator, denominator).den() == denominator,
    {
    }

    /// The fraction `numerator / denominator`, or `None` for a zero denominator.
    pub fn new(numerator: u64, denominator: u64) -> (progress: Option<Progress>)
        ensures
            progress is None <==> denominator == 0,
            progress matches Some(p) ==> p == Progress::fraction(numerator, denominator),
    {
        if denominator == 0 {
            None
        } else {
            Some(Progress { numerator, denominator })
        }
    }

    /// The fraction `numerator / denominator` of a denominator known to be positive.
    pub fn ratio(numerator: u64, denominator: u64) -> (progress: Progress)
        requires
            denominator > 0,
        ensures
            progress == Progress::fraction(numerator, denominator),
    {
        Progress { numerator, denominator }
    }

    /// The numerator.
    pub fn numerator(&self) -> (n: u64)
        ensures
            n == self.num(),
    {
        self.numerator
    }

    /// The denominator, which is never zero.
    pub fn denominator(&self) -> (d: u64)
        ensures
            d == self.den(),
            d > 0,
    {
        proof {
            use_type_invariant(self);
        }
        self.denominator
    }
}

/// Whether `progress` lies at or before the stop position `position`.
pub open spec fn at_or_before(progress: Progress, position: u32) -> bool {
    progress.num() * POSITION_SCALE <= position * progress.den()
}

/// Whether `progress` lies at or after the stop position `position`.
pub open spec fn at_or_after(progress: Progress, position: u32) -> bool {
    progress.num() * POSITION_SCALE >= position * progress.den()
}

/// Whether the positions of `stops` never decrease.
pub open spec fn is_sorted(stops: Seq<GradientStop>) -> bool {
    forall|i: int, j: int| 0 <= i <= j < stops.len() ==> stops[i].1 <= stops[j].1
}

/// `sorted` with `stop` put behind every stop whose position is not greater.
pub open spec fn insert_stop(sorted: Seq<GradientStop>, stop: GradientStop) -> Seq<GradientStop>
    decreases sorted.len(),
{
    if sorted.len() == 0 {
        seq![stop]
    } else if sorted.last().1 <= stop.1 {
        sorted.push(stop)
    } else {
        insert_stop(sorted.drop_last(), stop).push(sorted.last())
    }
}

/// The stops ordered by position; stops at one position keep their order.
pub open spec fn sort_stops(stops: Seq<GradientStop>) -> Seq<GradientStop>
    decreases stops.len(),
{
    if stops.len() == 0 {
        Seq::empty()
    } else {
        insert_stop(sort_stops(stops.drop_last()), stops.last())
    }
}

proof fn lemma_insert_stop_at(sorted: Seq<GradientStop>, stop: GradientStop, at: int)
    requires
        0 <= at <= sorted.len(),
        forall|k: int| at <= k < sorted.len() ==> sorted[k].1 > stop.1,
        at == 0 || sorted[at - 1].1 <= stop.1,
    ensures
        insert_stop(sorted, stop) == sorted.insert(at, stop),
    decreases sorted.len(),
{
    if sorted.len() == 0 {
        assert(sorted.insert(at, stop) =~= seq![stop]);
    } else if at == sorted.len() {
        assert(sorted.insert(at, stop) =~= sorted.push(stop));
    } else {
        lemma_insert_stop_at(sorted.drop_last(), stop, at);
        assert(sorted.drop_last().insert(at, stop).push(sorted.last()) =~= sorted.insert(
            at,
            stop,
        ));
    }
}

/// Inserting into a sorted list keeps it sorted and keeps every stop.
pub proof fn lemma_insert_stop_sorted(sorted: Seq<GradientStop>, stop: GradientStop)
    requires
        is_sorted(sorted),
    ensures
        is_sorted(insert_stop(sorted, stop)),
        insert_stop(sorted, stop).len() == sorted.len() + 1,
        insert_stop(sorted, stop).to_multiset() == sorted.to_multiset().insert(stop),
    decreases sorted.len(),
{
    broadcast use vstd::seq_lib::group_to_multiset_ensures;

    if sorted.len() == 0 {
        assert(seq![stop] =~= sorted.push(stop));
    } else if sorted.last().1 <= stop.1 {
    } else {
        let rest = sorted.drop_last();
        lemma_insert_stop_sorted(rest, stop);
        let inner = insert_stop(rest, stop);
        let out = inner.push(sorted.last());
        assert(sorted =~= rest.push(sorted.last()));
        assert forall|i: int, j: int| 0 <= i <= j < out.len() implies out[i].1 <= out[j].1 by {
            if j < inner.len() {
            } else {
                if i < inner.len() {
                    assert(inner.to_multiset().count(inner[i]) > 0);
                    if inner[i] == stop {
                    } else {
                        assert(rest.to_multiset().count(inner[i]) > 0);
                        let k = choose|k: int| 0 <= k < rest.len() && rest[k] == inner[i];
                        assert(sorted[k] == rest[k]);
                    }
                }
            }
        }
    }
}

/// Sorting yields a sorted list that holds the same stops.
pub proof fn lemma_sort_stops_sorted(stops: Seq<GradientStop>)
    ensures
        is_sorted(sort_stops(stops)),
        sort_stops(stops).len() == stops.len(),
        sort_stops(stops).to_multiset() == stops.to_multiset(),
    decreases stops.len(),
{
    broadcast use vstd::seq_lib::group_to_multiset_ensures;

    if stops.len() == 0 {
        assert(stops =~= Seq::empty());
    } else {
        lemma_sort_stops_sorted(stops.drop_last());
        lemma_insert_stop_sorted(sort_stops(stops.drop_last()), stops.last());
        assert(stops =~= stops.drop_last().push(stops.last()));
    }
}

/// Sorting leaves a sorted list as it is.
pub proof fn lemma_sort_stops_of_sorted(stops: Seq<GradientStop>)
    requires
        is_sorted(stops),
    ensures
        sort_stops(stops) == stops,
    decreases stops.len(),
{
    if stops.len() > 0 {
        let rest = stops.drop_last();
        lemma_sort_stops_of_sorted(rest);
        lemma_insert_stop_at(rest, stops.last(), rest.len() as int);
        assert(rest.insert(rest.len() as int, stops.last()) =~= stops);
    }
}

/// Orders the stops by position, keeping the order of stops at one position.
pub fn sorted_stops(stops: &Vec<GradientStop>) -> (sorted: Vec<GradientStop>)
    ensures
        sorted@ == sort_stops(stops@),
{
    let mut sorted: Vec<GradientStop> = Vec::new();
    let mut i: usize = 0;
    while i < stops.len()
        invariant
            i <= stops.len(),
            sorted@ == sort_stops(stops@.take(i as int)),
        decreases stops.len() - i,
    {
        let stop = stops[i];
        let mut at: usize = sorted.len();
        proof {
            lemma_sort_stops_sorted(stops@.take(i as int));
        }
        while at > 0 && sorted[at - 1].1 > stop.1
            invariant
                at <= sorted.len(),
                is_sorted(sorted@),
                forall|k: int| at <= k < sorted.len() ==> sorted[k].1 > stop.1,
            decreases at,
        {
            at = at - 1;
        }
        proof {
            lemma_insert_stop_at(sorted@, stop, at as int);
            assert(stops@.take(i + 1).drop_last() =~= stops@.take(i as int));
        }
        sorted.insert(at, stop);
        i = i + 1;
    }
    proof {
        assert(stops@.take(i as int) =~= stops@);
    }
    sorted
}

/// The stop position `position`, brought to the denominator `denominator`.
fn scaled(position: u32, denominator: u64) -> (product: u128)
    ensures
        product == position * denominator,
{
    assert(position * denominator <= 0xffff_ffff * 0xffff_ffff_ffff_ffff) by (nonlinear_arith)
        requires
            position <= 0xffff_ffff,
            denominator <= 0xffff_ffff_ffff_ffff,
    ;
    position as u128 * denominator as u128
}

/// The largest denominator of an interpolation factor that the arithmetic holds.
pub const MAX_FACTOR_DENOMINATOR: u128 = 0x1_0000_0000_0000_0000_0000_0000;

/// One channel between `from` and `to` at the factor `t_num / t_den`, rounded
/// to the nearest integer (a half rounds up).
pub open spec fn lerp_channel(from: u8, to: u8, t_num: int, t_den: int) -> u8 {
    ((2 * (from * (t_den - t_num) + to * t_num) + t_den) / (2 * t_den)) as u8
}

/// The colour between `from` and `to` at the factor `t_num / t_den`.
pub open spec fn lerp_rgb(from: (u8, u8, u8), to: (u8, u8, u8), t_num: int, t_den: int) -> (
    u8,
    u8,
    u8,
) {
    (
        lerp_channel(from.0, to.0, t_num, t_den),
        lerp_channel(from.1, to.1, t_num, t_den),
        lerp_channel(from.2, to.2, t_num, t_den),
    )
}

proof fn lemma_lerp_in_range(from: u8, to: u8, t_num: int, t_den: int)
    requires
        0 <= t_num <= t_den,
        0 < t_den,
    ensures
        0 <= from * (t_den - t_num) <= 255 * t_den,
        0 <= to * t_num <= 255 * t_den,
        0 <= from * (t_den - t_num) + to * t_num <= 255 * t_den,
        0 <= (2 * (from * (t_den - t_num) + to * t_num) + t_den) / (2 * t_den) <= 255,
{
    assert(0 <= from * (t_den - t_num) <= 255 * (t_den - t_num)) by (nonlinear_arith)
        requires
            0 <= from <= 255,
            0 <= t_den - t_num,
    ;
    assert(0 <= to * t_num <= 255 * t_num) by (nonlinear_arith)
        requires
            0 <= to <= 255,
            0 <= t_num,
    ;
    let twice = 2 * (from * (t_den - t_num) + to * t_num) + t_den;
    assert(0 <= twice / (2 * t_den) <= 255) by (nonlinear_arith)
        requires
            0 <= twice <= 511 * t_den,
            0 < t_den,
    ;
}

proof fn lemma_lerp_channel_ends(from: u8, to: u8, t_den: int)
    requires
        0 < t_den,
    ensures
        lerp_channel(from, to, 0, t_den) == from,
        lerp_channel(from, to, t_den, t_den) == to,
{
    assert(from * (t_den - 0) + to * 0 == from * t_den) by (nonlinear_arith);
    assert(from * (t_den - t_den) + to * t_den == to * t_den) by (nonlinear_arith);
    assert((2 * (from * t_den) + t_den) / (2 * t_den) == from) by (nonlinear_arith)
        requires
            0 < t_den,
            0 <= from,
    ;
    assert((2 * (to * t_den) + t_den) / (2 * t_den) == to) by (nonlinear_arith)
        requires
            0 < t_den,
            0 <= to,
    ;
}

/// The ends of an interpolation are its two colours, exactly.
pub proof fn lemma_lerp_ends(from: (u8, u8, u8), to: (u8, u8, u8), t_den: int)
    requires
        0 < t_den,
    ensures
        lerp_rgb(from, to, 0, t_den) == from,
        lerp_rgb(from, to, t_den, t_den) == to,
{
    lemma_lerp_channel_ends(from.0, to.0, t_den);
    lemma_lerp_channel_ends(from.1, to.1, t_den);
    lemma_lerp_channel_ends(from.2, to.2, t_den);
}

fn lerp_one(from: u8, to: u8, t_num: u128, t_den: u128) -> (channel: u8)
    requires
        0 < t_den <= MAX_FACTOR_DENOMINATOR,
        t_num <= t_den,
    ensures
        channel == lerp_channel(from, to, t_num as int, t_den as int),
{
    proof {
        lemma_lerp_in_range(from, to, t_num as int, t_den as int);
    }
    let low: u128 = from as u128 * (t_den - t_num);
    let high: u128 = to as u128 * t_num;
    let twice: u128 = 2 * (low + high) + t_den;
    let rounded: u128 = twice / (2 * t_den);
    rounded as u8
}

/// Interpolates each channel between `from` and `to` at the factor
/// `t_num / t_den`, which lies between 0 and 1.
pub fn lerp_rgb_color(from: (u8, u8, u8), to: (u8, u8, u8), t_num: u128, t_den: u128) -> (rgb: (
    u8,
    u8,
    u8,
))
    requires
        0 < t_den <= MAX_FACTOR_DENOMINATOR,
        t_num <= t_den,
    ensures
        rgb == lerp_rgb(from, to, t_num as int, t_den as int),
{
    (
        lerp_one(from.0, to.0, t_num, t_den),
        lerp_one(from.1, to.1, t_num, t_den),
        lerp_one(from.2, to.2, t_num, t_den),
    )
}

/// The first index at or after `from` whose stop and the next one enclose
/// `progress`.
pub open spec fn bracket(sorted: Seq<GradientStop>, progress: Progress, from: int) -> int
    decreases sorted.len() - from,
{
    if from + 1 >= sorted.len() {
        from
    } else if at_or_after(progress, sorted[from].1) && at_or_before(progress, sorted[from + 1].1) {
        from
    } else {
        bracket(sorted, progress, from + 1)
    }
}

/// The colour between the stops `low` and `high` at `progress`: each channel
/// moves linearly by the factor `(p - low) / (high - low)` over the positions.
pub open spec fn interpolate(low: GradientStop, high: GradientStop, progress: Progress) -> (
    u8,
    u8,
    u8,
) {
    lerp_rgb(
        low.0,
        high.0,
        progress.num() * POSITION_SCALE - low.1 * progress.den(),
        (high.1 - low.1) * progress.den(),
    )
}

/// The colour of a sorted gradient at `progress`: the first stop's colour up
/// to its position, the last stop's colour from its position on, and between
/// two stops the interpolation of their colours.
pub open spec fn sample(sorted: Seq<GradientStop>, progress: Progress) -> (u8, u8, u8) {
    if at_or_before(progress, sorted.first().1) {
        sorted.first().0
    } else if at_or_after(progress, sorted.last().1) {
        sorted.last().0
    } else {
        let i = bracket(sorted, progress, 0);
        interpolate(sorted[i], sorted[i + 1], progress)
    }
}

/// Samples a sorted gradient of two stops or more at `progress`.
pub fn sample_sorted(sorted: &Vec<GradientStop>, progress: Progress) -> (rgb: (u8, u8, u8))
    requires
        sorted.len() >= 2,
        is_sorted(sorted@),
    ensures
        rgb == sample(sorted@, progress),
{
    let den: u64 = progress.denominator();
    let at: u128 = scaled(POSITION_SCALE, progress.numerator());
    assert(at == progress.num() * POSITION_SCALE) by (nonlinear_arith)
        requires
            at == POSITION_SCALE * progress.num(),
    ;
    let first = sorted[0];
    if at <= scaled(first.1, den) {
        return first.0;
    }
    let last = sorted[sorted.len() - 1];
    if at >= scaled(last.1, den) {
        return last.0;
    }
    let mut i: usize = 0;
    while i + 1 < sorted.len()
        invariant
            i < sorted.len(),
            sorted.len() >= 2,
            is_sorted(sorted@),
            den == progress.den(),
            den > 0,
            at == progress.num() * POSITION_SCALE,
            at > sorted[i as int].1 * den,
            at < sorted[sorted.len() - 1].1 * den,
            sorted@.first().1 * den < at,
            bracket(sorted@, progress, 0) == bracket(sorted@, progress, i as int),
        decreases sorted.len() - i,
    {
        let low = sorted[i];
        let high = sorted[i + 1];
        let low_at: u128 = scaled(low.1, den);
        let high_at: u128 = scaled(high.1, den);
        if at <= high_at {
            let t_num: u128 = at - low_at;
            let t_den: u128 = scaled(high.1 - low.1, den);
            proof {
                assert(low.1 < high.1) by (nonlinear_arith)
                    requires
                        low.1 * den < high.1 * den,
                        den > 0,
                ;
                assert((high.1 - low.1) * den == high.1 * den - low.1 * den) by (nonlinear_arith);
                assert(0 < (high.1 - low.1) * den <= 0xffff_ffff * 0xffff_ffff_ffff_ffff)
                    by (nonlinear_arith)
                    requires
                        0 < high.1 - low.1 <= 0xffff_ffff,
                        0 < den <= 0xffff_ffff_ffff_ffff,
                ;
            }
            return lerp_rgb_color(low.0, high.0, t_num, t_den);
        }
        i = i + 1;
    }
    proof {
        assert(false);
    }
    vstd::pervasive::unreached()
}

/// The colour of a gradient at `progress`: white without stops, the colour of
/// a single stop, and otherwise the sample of the stops sorted by position.
pub open spec fn gradient_color(stops: Seq<GradientStop>, progress: Progress) -> (u8, u8, u8)
    recommends
        stops.len() > 0,
{
    if stops.len() == 1 {
        stops[0].0
    } else {
        sample(sort_stops(stops), progress)
    }
}

/// The colour of a gradient of at least one stop at `progress`.
pub fn gradient_at(stops: &Vec<GradientStop>, progress: Progress) -> (rgb: (u8, u8, u8))
    requires
        stops.len() > 0,
    ensures
        rgb == gradient_color(stops@, progress),
{
    if stops.len() == 1 {
        return stops[0].0;
    }
    let sorted = sorted_stops(stops);
    proof {
        lemma_sort_stops_sorted(stops@);
    }
    sample_sorted(&sorted, progress)
}

proof fn lemma_bracket_found(sorted: Seq<GradientStop>, progress: Progress, from: int)
    requires
        0 <= from,
        from + 1 < sorted.len(),
        at_or_after(progress, sorted[from].1),
        !at_or_after(progress, sorted.last().1),
    ensures
        from <= bracket(sorted, progress, from) < sorted.len() - 1,
        at_or_after(progress, sorted[bracket(sorted, progress, from)].1),
        at_or_before(progress, sorted[bracket(sorted, progress, from) + 1].1),
        forall|j: int|
            from <= j < bracket(sorted, progress, from) ==> !(at_or_after(
                progress,
                #[trigger] sorted[j].1,
            ) && at_or_before(progress, sorted[j + 1].1)),
    decreases sorted.len() - from,
{
    if !at_or_before(progress, sorted[from + 1].1) {
        lemma_bracket_found(sorted, progress, from + 1);
    }
}

proof fn lemma_same_position(a: u32, b: u32, den: int)
    requires
        den > 0,
    ensures
        a * den == b * den ==> a == b,
        a * den <= b * den ==> a <= b,
        a <= b ==> a * den <= b * den,
{
    assert(a * den == b * den ==> a == b) by (nonlinear_arith)
        requires
            den > 0,
    ;
    assert(a * den <= b * den ==> a <= b) by (nonlinear_arith)
        requires
            den > 0,
    ;
    assert(a <= b ==> a * den <= b * den) by (nonlinear_arith)
        requires
            den > 0,
    ;
}

/// In a gradient whose stops are sorted, the colour at the exact position of
/// a stop is that stop's colour, provided that every stop at this position
/// has this colour.
pub proof fn lemma_gradient_at_stop(stops: Seq<GradientStop>, k: int, progress: Progress)
    requires
        progress.den() > 0,
        is_sorted(stops),
        0 <= k < stops.len(),
        progress.num() * POSITION_SCALE == stops[k].1 * progress.den(),
        forall|j: int| 0 <= j < stops.len() && stops[j].1 == stops[k].1 ==> stops[j].0 == stops[k].0,
    ensures
        gradient_color(stops, progress) == stops[k].0,
{
    let den = progress.den();
    if stops.len() > 1 {
        lemma_sort_stops_of_sorted(stops);
        lemma_same_position(stops[k].1, stops.first().1, den);
        lemma_same_position(stops.last().1, stops[k].1, den);
        if at_or_before(progress, stops.first().1) {
        } else if at_or_after(progress, stops.last().1) {
        } else {
            lemma_bracket_found(stops, progress, 0);
            let i = bracket(stops, progress, 0);
            let low = stops[i];
            let high = stops[i + 1];
            lemma_same_position(low.1, stops[k].1, den);
            lemma_same_position(stops[k].1, high.1, den);
            if low.1 == high.1 {
                // the pair before this one would enclose the progress as well
                if i > 0 {
                    lemma_same_position(stops[i - 1].1, low.1, den);
                    assert(at_or_after(progress, stops[i - 1].1));
                }
                assert(false);
            }
            let t_den = (high.1 - low.1) * den;
            assert(t_den > 0) by (nonlinear_arith)
                requires
                    t_den == (high.1 - low.1) * den,
                    high.1 - low.1 > 0,
                    den > 0,
            ;
            assert(t_den == high.1 * den - low.1 * den) by (nonlinear_arith)
                requires
                    t_den == (high.1 - low.1) * den,
            ;
            lemma_lerp_ends(low.0, high.0, t_den);
            if k <= i {
                assert(stops[k].1 == low.1);
            } else {
                assert(stops[k].1 == high.1);
            }
        }
    }
}

/// In a gradient whose stops are sorted, a progress at or before the first
/// stop has the first stop's colour, and a progress behind the last stop has
/// the last stop's colour.
pub proof fn lemma_gradient_clamps(stops: Seq<GradientStop>, progress: Progress)
    requires
        progress.den() > 0,
        is_sorted(stops),
        stops.len() > 0,
    ensures
        at_or_before(progress, stops.first().1) ==> gradient_color(stops, progress)
            == stops.first().0,
        !at_or_before(progress, stops.last().1) ==> gradient_color(stops, progress)
            == stops.last().0,
{
    if stops.len() > 1 {
        lemma_sort_stops_of_sorted(stops);
        lemma_same_position(stops.first().1, stops.last().1, progress.den());
    }
}

/// The highest of the three channels.
pub open spec fn highest(rgb: (u8, u8, u8)) -> u8 {
    if rgb.0 >= rgb.1 && rgb.0 >= rgb.2 {
        rgb.0
    } else if rgb.1 >= rgb.2 {
        rgb.1
    } else {
        rgb.2
    }
}

/// The lowest of the three channels.
pub open spec fn lowest(rgb: (u8, u8, u8)) -> u8 {
    if rgb.0 <= rgb.1 && rgb.0 <= rgb.2 {
        rgb.0
    } else if rgb.1 <= rgb.2 {
        rgb.1
    } else {
        rgb.2
    }
}

/// The hue of `rgb` in sixths of a turn (60 degrees each), multiplied by the
/// chroma `highest - lowest`: a whole number from 0 up to six times the chroma.
/// A grey has hue 0.
pub open spec fn hue_numerator(rgb: (u8, u8, u8)) -> int {
    let chroma = highest(rgb) - lowest(rgb);
    if chroma == 0 {
        0
    } else if highest(rgb) == rgb.0 {
        if rgb.1 >= rgb.2 {
            rgb.1 - rgb.2
        } else {
            6 * chroma + rgb.1 - rgb.2
        }
    } else if highest(rgb) == rgb.1 {
        2 * chroma + rgb.2 - rgb.0
    } else {
        4 * chroma + rgb.0 - rgb.1
    }
}

/// The colour whose channels span `low` to `high` at the hue `angle / sixth`
/// sixths of a turn, where `0 <= angle < 6 * sixth`. Lightness and
/// saturation are functions of `low` and `high` alone; the hue places the
/// third channel between them, rounded to the nearest integer.
pub open spec fn wheel_color(low: u8, high: u8, angle: int, sixth: int) -> (u8, u8, u8) {
    let chroma = high - low;
    let sector = angle / sixth;
    let within = angle % (2 * sixth);
    let rise = if within <= sixth {
        within
    } else {
        2 * sixth - within
    };
    let mid = (low + (2 * chroma * rise + sixth) / (2 * sixth)) as u8;
    if sector == 0 {
        (high, mid, low)
    } else if sector == 1 {
        (mid, high, low)
    } else if sector == 2 {
        (low, high, mid)
    } else if sector == 3 {
        (low, mid, high)
    } else if sector == 4 {
        (mid, low, high)
    } else {
        (high, low, mid)
    }
}

/// `rgb` with its hue turned by `progress` of a full turn, modulo one turn,
/// at the same saturation and lightness. A grey stays as it is.
pub open spec fn rotated(rgb: (u8, u8, u8), progress: Progress) -> (u8, u8, u8) {
    let chroma = highest(rgb) - lowest(rgb);
    if chroma == 0 {
        rgb
    } else {
        let sixth = chroma * progress.den();
        let angle = (hue_numerator(rgb) * progress.den() + 6 * chroma * progress.num()) % (6
            * sixth);
        wheel_color(lowest(rgb), highest(rgb), angle, sixth)
    }
}

fn highest_channel(rgb: (u8, u8, u8)) -> (high: u8)
    ensures
        high == highest(rgb),
{
    if rgb.0 >= rgb.1 && rgb.0 >= rgb.2 {
        rgb.0
    } else if rgb.1 >= rgb.2 {
        rgb.1
    } else {
        rgb.2
    }
}

fn lowest_channel(rgb: (u8, u8, u8)) -> (low: u8)
    ensures
        low == lowest(rgb),
{
    if rgb.0 <= rgb.1 && rgb.0 <= rgb.2 {
        rgb.0
    } else if rgb.1 <= rgb.2 {
        rgb.1
    } else {
        rgb.2
    }
}

/// The hue of `rgb` as a multiple of a sixth of a turn over the chroma.
pub fn rgb_to_hue(rgb: (u8, u8, u8)) -> (hue: u16)
    ensures
        hue == hue_numerator(rgb),
        0 <= hue,
        highest(rgb) > lowest(rgb) ==> hue < 6 * (highest(rgb) - lowest(rgb)),
{
    let high: u16 = highest_channel(rgb) as u16;
    let chroma: u16 = high - lowest_channel(rgb) as u16;
    let r: u16 = rgb.0 as u16;
    let g: u16 = rgb.1 as u16;
    let b: u16 = rgb.2 as u16;
    if chroma == 0 {
        0
    } else if high == r {
        if g >= b {
            g - b
        } else {
            6 * chroma + g - b
        }
    } else if high == g {
        2 * chroma + b - r
    } else {
        4 * chroma + r - g
    }
}

proof fn lemma_wheel_bounds(chroma: int, rise: int, sixth: int)
    requires
        0 <= chroma <= 255,
        0 <= rise <= sixth,
        0 < sixth,
    ensures
        0 <= 2 * chroma * rise <= 510 * sixth,
        0 <= (2 * chroma * rise + sixth) / (2 * sixth) <= chroma,
{
    assert(0 <= 2 * chroma * rise <= 2 * chroma * sixth) by (nonlinear_arith)
        requires
            0 <= chroma,
            0 <= rise <= sixth,
    ;
    assert(2 * chroma * sixth <= 510 * sixth) by (nonlinear_arith)
        requires
            0 <= chroma <= 255,
            0 < sixth,
    ;
    let top = 2 * chroma * rise + sixth;
    assert(0 <= top / (2 * sixth) <= chroma) by (nonlinear_arith)
        requires
            0 <= top <= 2 * chroma * sixth + sixth,
            0 < sixth,
            0 <= chroma,
    ;
}

/// The colour between `low` and `high` at the hue `angle / sixth`.
pub fn hue_to_rgb(low: u8, high: u8, angle: u128, sixth: u128) -> (rgb: (u8, u8, u8))
    requires
        low <= high,
        0 < sixth <= 0x1_0000_0000_0000_0000_0000,
        angle < 6 * sixth,
    ensures
        rgb == wheel_color(low, high, angle as int, sixth as int),
{
    let chroma: u128 = (high - low) as u128;
    let sector: u128 = angle / sixth;
    let within: u128 = angle % (2 * sixth);
    let rise: u128 = if within <= sixth {
        within
    } else {
        2 * sixth - within
    };
    proof {
        lemma_wheel_bounds(chroma as int, rise as int, sixth as int);
    }
    let step: u128 = (2 * chroma * rise + sixth) / (2 * sixth);
    let mid: u8 = low + step as u8;
    if sector == 0 {
        (high, mid, low)
    } else if sector == 1 {
        (mid, high, low)
    } else if sector == 2 {
        (low, high, mid)
    } else if sector == 3 {
        (low, mid, high)
    } else if sector == 4 {
        (mid, low, high)
    } else {
        (high, low, mid)
    }
}

/// Turns the hue of `rgb` by `progress` of a full turn.
pub fn rotate_hue(rgb: (u8, u8, u8), progress: Progress) -> (out: (u8, u8, u8))
    ensures
        out == rotated(rgb, progress),
{
    let high: u8 = highest_channel(rgb);
    let low: u8 = lowest_channel(rgb);
    if high == low {
        return rgb;
    }
    let chroma: u128 = (high - low) as u128;
    let den: u128 = progress.denominator() as u128;
    let num: u128 = progress.numerator() as u128;
    let hue: u128 = rgb_to_hue(rgb) as u128;
    assert(0 < chroma * den <= 255 * 0xffff_ffff_ffff_ffff) by (nonlinear_arith)
        requires
            0 < chroma <= 255,
            0 < den <= 0xffff_ffff_ffff_ffff,
    ;
    assert(hue * den <= 1530 * 0xffff_ffff_ffff_ffff) by (nonlinear_arith)
        requires
            hue <= 1530,
            den <= 0xffff_ffff_ffff_ffff,
    ;
    assert(chroma * num <= 255 * 0xffff_ffff_ffff_ffff) by (nonlinear_arith)
        requires
            chroma <= 255,
            num <= 0xffff_ffff_ffff_ffff,
    ;
    let sixth: u128 = chroma * den;
    let turned: u128 = hue * den + 6 * (chroma * num);
    assert(6 * (chroma * num) == 6 * chroma * num) by (nonlinear_arith);
    let angle: u128 = turned % (6 * sixth);
    hue_to_rgb(low, high, angle, sixth)
}

/// A gradient is the gradient of its stops in the order of their positions.
pub proof fn lemma_gradient_of_sorted(stops: Seq<GradientStop>, progress: Progress)
    requires
        stops.len() >= 2,
    ensures
        is_sorted(sort_stops(stops)),
        gradient_color(stops, progress) == gradient_color(sort_stops(stops), progress),
{
    lemma_sort_stops_sorted(stops);
    lemma_sort_stops_of_sorted(sort_stops(stops));
}

proof fn lemma_wheel_at(low: u8, high: u8, sector: int, part: int, den: int)
    requires
        low < high,
        den > 0,
        0 <= sector <= 5,
        0 <= part < high - low,
    ensures
        ({
            let chroma = high - low;
            let mid = (low + if sector % 2 == 0 {
                part
            } else {
                chroma - part
            }) as u8;
            wheel_color(low, high, (sector * chroma + part) * den, chroma * den) == if sector
                == 0 {
                (high, mid, low)
            } else if sector == 1 {
                (mid, high, low)
            } else if sector == 2 {
                (low, high, mid)
            } else if sector == 3 {
                (low, mid, high)
            } else if sector == 4 {
                (mid, low, high)
            } else {
                (high, low, mid)
            }
        }),
{
    let chroma = high - low;
    let sixth = chroma * den;
    let angle = (sector * chroma + part) * den;
    let step = if sector % 2 == 0 {
        part
    } else {
        chroma - part
    };
    assert(sixth > 0) by (nonlinear_arith)
        requires
            sixth == chroma * den,
            chroma > 0,
            den > 0,
    ;
    assert(0 <= part * den < sixth) by (nonlinear_arith)
        requires
            sixth == chroma * den,
            0 <= part < chroma,
            den > 0,
    ;
    assert(angle == sector * sixth + part * den) by (nonlinear_arith)
        requires
            angle == (sector * chroma + part) * den,
            sixth == chroma * den,
    ;
    vstd::arithmetic::div_mod::lemma_fundamental_div_mod_converse(
        angle,
        sixth,
        sector,
        part * den,
    );
    let pair = sector / 2;
    let rest = (sector % 2) * sixth + part * den;
    assert(angle == pair * (2 * sixth) + rest) by (nonlinear_arith)
        requires
            angle == sector * sixth + part * den,
            rest == (sector % 2) * sixth + part * den,
            pair == sector / 2,
            sector == 2 * (sector / 2) + sector % 2,
    ;
    assert(0 <= rest < 2 * sixth) by (nonlinear_arith)
        requires
            rest == (sector % 2) * sixth + part * den,
            0 <= sector % 2 <= 1,
            0 <= part * den < sixth,
    ;
    vstd::arithmetic::div_mod::lemma_fundamental_div_mod_converse(angle, 2 * sixth, pair, rest);
    let rise = if rest <= sixth {
        rest
    } else {
        2 * sixth - rest
    };
    assert(rise == step * den) by (nonlinear_arith)
        requires
            rest == (sector % 2) * sixth + part * den,
            sixth == chroma * den,
            0 <= sector % 2 <= 1,
            0 <= part * den < sixth,
            rise == if rest <= sixth {
                rest
            } else {
                2 * sixth - rest
            },
            step == if sector % 2 == 0 {
                part
            } else {
                chroma - part
            },
    ;
    assert(2 * chroma * rise + sixth == step * (2 * sixth) + sixth) by (nonlinear_arith)
        requires
            rise == step * den,
            sixth == chroma * den,
    ;
    vstd::arithmetic::div_mod::lemma_fundamental_div_mod_converse(
        2 * chroma * rise + sixth,
        2 * sixth,
        step,
        sixth,
    );
}

/// A colour whose hue is turned by nothing is the colour itself: the way
/// from the channels to the hue and back loses nothing.
pub proof fn lemma_rotate_by_nothing(rgb: (u8, u8, u8), progress: Progress)
    requires
        progress.den() > 0,
        progress.num() == 0,
    ensures
        rotated(rgb, progress) == rgb,
{
    let high = highest(rgb);
    let low = lowest(rgb);
    let chroma = high - low;
    let den = progress.den();
    if chroma > 0 {
        let hue = hue_numerator(rgb);
        let sixth = chroma * den;
        assert(0 <= hue * den < 6 * sixth) by (nonlinear_arith)
            requires
                0 <= hue < 6 * chroma,
                sixth == chroma * den,
                den > 0,
        ;
        assert(6 * chroma * progress.num() == 0) by (nonlinear_arith)
            requires
                progress.num() == 0,
        ;
        vstd::arithmetic::div_mod::lemma_small_mod((hue * den) as nat, (6 * sixth) as nat);
        let (sector, part): (int, int) = if high == rgb.0 {
            if rgb.1 >= rgb.2 {
                if hue < chroma {
                    (0, hue)
                } else {
                    (1, 0)
                }
            } else {
                (5, chroma - (rgb.2 - rgb.1))
            }
        } else if high == rgb.1 {
            if rgb.2 < rgb.0 {
                (1, chroma - (rgb.0 - rgb.2))
            } else if rgb.2 - rgb.0 < chroma {
                (2, rgb.2 - rgb.0)
            } else {
                (3, 0)
            }
        } else {
            if rgb.0 < rgb.1 {
                (3, chroma - (rgb.1 - rgb.0))
            } else {
                (4, rgb.0 - rgb.1)
            }
        };
        assert(hue == sector * chroma + part) by (nonlinear_arith)
            requires
                hue == hue_numerator(rgb),
                chroma == highest(rgb) - lowest(rgb),
                chroma > 0,
                (sector, part) == if highest(rgb) == rgb.0 {
                    if rgb.1 >= rgb.2 {
                        if hue < chroma {
                            (0int, hue)
                        } else {
                            (1int, 0int)
                        }
                    } else {
                        (5int, chroma - (rgb.2 - rgb.1))
                    }
                } else if highest(rgb) == rgb.1 {
                    if rgb.2 < rgb.0 {
                        (1int, chroma - (rgb.0 - rgb.2))
                    } else if rgb.2 - rgb.0 < chroma {
                        (2int, rgb.2 - rgb.0)
                    } else {
                        (3int, 0int)
                    }
                } else {
                    if rgb.0 < rgb.1 {
                        (3int, chroma - (rgb.1 - rgb.0))
                    } else {
                        (4int, rgb.0 - rgb.1)
                    }
                },
        ;
        lemma_wheel_at(low, high, sector, part, den);
    }
}

/// One full turn more changes nothing: the hue is taken modulo one turn.
pub proof fn lemma_rotate_full_turn(rgb: (u8, u8, u8), progress: Progress, later: Progress)
    requires
        progress.den() > 0,
        later.den() == progress.den(),
        later.num() == progress.num() + progress.den(),
    ensures
        rotated(rgb, later) == rotated(rgb, progress),
{
    let chroma = highest(rgb) - lowest(rgb);
    if chroma > 0 {
        let den = progress.den();
        let sixth = chroma * den;
        let turn = 6 * sixth;
        let angle = hue_numerator(rgb) * den + 6 * chroma * progress.num();
        assert(hue_numerator(rgb) * den + 6 * chroma * later.num() == turn * 1 + angle)
            by (nonlinear_arith)
            requires
                later.num() == progress.num() + den,
                turn == 6 * (chroma * den),
                angle == hue_numerator(rgb) * den + 6 * chroma * progress.num(),
        ;
        assert(turn > 0) by (nonlinear_arith)
            requires
                turn == 6 * (chroma * den),
                chroma > 0,
                den > 0,
        ;
        vstd::arithmetic::div_mod::lemma_mod_multiples_vanish(1, angle, turn);
    }
}

} // verus!
