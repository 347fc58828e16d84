use vstd::prelude::*;

verus! {

/// The character at position `i` of a wealth-cone bar: `#` up to the P10
/// width, `=` up to the median width, `.` up to the P90 width, blank after.
pub open spec fn cone_char(p10_width: nat, p50_width: nat, p90_width: nat, i: nat) -> char {
    if i < p10_width {
        '#'
    } else if i < p50_width {
        '='
    } else if i < p90_width {
        '.'
    } else {
        ' '
    }
}

/// One text bar of the wealth cone, `width` characters long.
///
/// The P90 band is drawn first with `.`, the median band over it with `=`,
/// and the P10 band over both with `#`; each band is cut at `width`.
pub fn cone_bar(p10_width: usize, p50_width: usize, p90_width: usize, width: usize) -> (bar: String)
    ensures
        bar@.len() == width,
        forall|i: int|
            0 <= i < width ==> #[trigger] bar@[i] == cone_char(
                p10_width as nat,
                p50_width as nat,
                p90_width as nat,
                i as nat,
            ),
        forall|i: int| 0 <= i < width && i < p10_width ==> #[trigger] bar@[i] == '#',
        forall|i: int|
            0 <= i < width && p10_width <= i < p50_width ==> #[trigger] bar@[i] == '=',
        forall|i: int|
            0 <= i < width && p10_width <= i && p50_width <= i && i < p90_width ==> #[trigger] bar@[i]
                == '.',
        forall|i: int|
            0 <= i < width && p10_width <= i && p50_width <= i && p90_width <= i ==> #[trigger] bar@[i]
                == ' ',
{
    let mut bar = String::new();
    let mut i: usize = 0;
    while i < width
        invariant
            i <= width,
            bar@.len() == i,
            forall|j: int|
                0 <= j < i ==> #[trigger] bar@[j] == cone_char(
                    p10_width as nat,
                    p50_width as nat,
                    p90_width as nat,
                    j as nat,
                ),
        decreases width - i,
    {
        if i < p10_width {
            proof {
                reveal_strlit("#");
            }
            bar.append("#");
        } else if i < p50_width {
            proof {
                reveal_strlit("=");
            }
            bar.append("=");
        } else if i < p90_width {
            proof {
                reveal_strlit(".");
            }
            bar.append(".");
        } else {
            proof {
                reveal_strlit(" ");
            }
            bar.append(" ");
        }
        i = i + 1;
    }
    bar
}

/// The bands of a cone bar, position by position: the P10 band is drawn
/// over everything else, the median band over the P90 band, and only
/// positions outside all three bands are blank.
pub proof fn lemma_cone_char_layers(p10_width: nat, p50_width: nat, p90_width: nat, i: nat)
    ensures
        i < p10_width ==> cone_char(p10_width, p50_width, p90_width, i) == '#',
        p10_width <= i < p50_width ==> cone_char(p10_width, p50_width, p90_width, i) == '=',
        p10_width <= i && p50_width <= i && i < p90_width ==> cone_char(
            p10_width,
            p50_width,
            p90_width,
            i,
        ) == '.',
        p10_width <= i && p50_width <= i && p90_width <= i ==> cone_char(
            p10_width,
            p50_width,
            p90_width,
            i,
        ) == ' ',
{
}

/// How many years apart the wealth cone shows its rows: every year for
/// horizons up to 10 years, every 5th up to 25 years, every 6th beyond.
pub open spec fn spec_band_step(years: nat) -> nat {
    if years <= 10 {
        1
    } else if years <= 25 {
        5
    } else {
        6
    }
}

/// Whether the wealth cone of a `years`-year horizon shows the row of `year`:
/// the first and the last year always, and every year on the step.
pub open spec fn spec_show_band(year: nat, years: nat) -> bool {
    year == 0 || year == years || year % spec_band_step(years) == 0
}

/// The row spacing of the wealth cone for a horizon of `years` years.
pub fn band_step(years: usize) -> (step: usize)
    ensures
        step == spec_band_step(years as nat),
        step >= 1,
        years <= 10 ==> step == 1,
        10 < years <= 25 ==> step == 5,
        years > 25 ==> step == 6,
{
    if years <= 10 {
        1
    } else if years <= 25 {
        5
    } else {
        6
    }
}

/// Whether the wealth cone shows the row of `year` for a `years`-year horizon.
pub fn show_band(year: usize, years: usize) -> (shown: bool)
    ensures
        shown == spec_show_band(year as nat, years as nat),
        shown <==> (year == 0 || year == years || years <= 10 || (10 < years <= 25 && year % 5
            == 0) || (years > 25 && year % 6 == 0)),
{
    let step = band_step(years);
    year == 0 || year == years || year % step == 0
}

/// Row spacing by horizon length: every year up to 10 years, every 5th
/// year up to 25 years, every 6th year beyond; a year is shown when it is
/// the first, the last, or on that spacing.
pub proof fn lemma_band_rows(year: nat, years: nat)
    ensures
        years <= 10 ==> spec_band_step(years) == 1,
        10 < years <= 25 ==> spec_band_step(years) == 5,
        years > 25 ==> spec_band_step(years) == 6,
        years <= 10 ==> spec_show_band(year, years),
        10 < years <= 25 ==> (spec_show_band(year, years) <==> (year == 0 || year == years || year
            % 5 == 0)),
        years > 25 ==> (spec_show_band(year, years) <==> (year == 0 || year == years || year % 6
            == 0)),
{
    if years <= 10 {
        assert(year % 1 == 0);
    }
}

/// The wealth cone always shows where the horizon starts and where it ends.
pub proof fn lemma_cone_shows_both_ends(years: nat)
    ensures
        spec_show_band(0, years),
        spec_show_band(years, years),
{
}

/// The largest of the histogram counts, and never less than 1, so that bar
/// lengths can be scaled by it.
pub open spec fn spec_histogram_peak(counts: Seq<usize>) -> nat
    decreases counts.len(),
{
    if counts.len() == 0 {
        1
    } else {
        let rest = spec_histogram_peak(counts.drop_last());
        if counts.last() > rest {
            counts.last() as nat
        } else {
            rest
        }
    }
}

/// The count that the longest histogram bar stands for: the largest count,
/// or 1 when there are no counts or all are 0.
pub fn histogram_peak(counts: &Vec<usize>) -> (peak: usize)
    ensures
        peak == spec_histogram_peak(counts@),
{
    let mut peak: usize = 1;
    let mut i: usize = 0;
    while i < counts.len()
        invariant
            i <= counts.len(),
            peak == spec_histogram_peak(counts@.take(i as int)),
        decreases counts.len() - i,
    {
        assert(counts@.take(i + 1).drop_last() =~= counts@.take(i as int));
        if counts[i] > peak {
            peak = counts[i];
        }
        i = i + 1;
    }
    assert(counts@.take(counts.len() as int) =~= counts@);
    peak
}

/// The histogram scale is positive and no bar is longer than the scale:
/// every count is at most the peak, and the peak is one of the counts
/// unless it is the floor of 1.
pub proof fn lemma_histogram_peak_bounds(counts: Seq<usize>)
    ensures
        spec_histogram_peak(counts) >= 1,
        forall|i: int| 0 <= i < counts.len() ==> counts[i] <= spec_histogram_peak(counts),
        spec_histogram_peak(counts) == 1 || exists|i: int|
            0 <= i < counts.len() && counts[i] == spec_histogram_peak(counts),
    decreases counts.len(),
{
    if counts.len() > 0 {
        let rest = counts.drop_last();
        lemma_histogram_peak_bounds(rest);
        assert forall|i: int| 0 <= i < counts.len() implies counts[i] <= spec_histogram_peak(
            counts,
        ) by {
            if i < counts.len() - 1 {
                assert(counts[i] == rest[i]);
            }
        }
        if spec_histogram_peak(counts) != 1 {
            if counts.last() > spec_histogram_peak(rest) {
                assert(counts[counts.len() - 1] == spec_histogram_peak(counts));
            } else {
                let j = choose|j: int| 0 <= j < rest.len() && rest[j] == spec_histogram_peak(rest);
                assert(counts[j] == rest[j]);
            }
        }
    }
}

} // verus!
