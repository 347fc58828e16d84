use monte_carlo_risk::layout::{band_step, cone_bar, histogram_peak, show_band};

#[test]
fn cone_bar_layers_the_three_bands() {
    assert_eq!(cone_bar(2, 5, 8, 10), "##===...  ");
}

#[test]
fn cone_bar_cuts_bands_at_the_width() {
    assert_eq!(cone_bar(1, 3, 60, 6), "#==...");
    assert_eq!(cone_bar(0, 0, 0, 4), "    ");
    assert_eq!(cone_bar(7, 9, 12, 0), "");
}

#[test]
fn cone_bar_p10_wins_over_wider_bands() {
    assert_eq!(cone_bar(4, 2, 1, 5), "#### ");
}

#[test]
fn cone_bar_is_as_wide_as_asked() {
    let bar = cone_bar(10, 20, 30, 44);
    assert_eq!(bar.chars().count(), 44);
    assert_eq!(bar.chars().filter(|c| *c == '#').count(), 10);
    assert_eq!(bar.chars().filter(|c| *c == '=').count(), 10);
    assert_eq!(bar.chars().filter(|c| *c == '.').count(), 10);
}

#[test]
fn band_step_grows_with_the_horizon() {
    assert_eq!(band_step(8), 1);
    assert_eq!(band_step(10), 1);
    assert_eq!(band_step(11), 5);
    assert_eq!(band_step(25), 5);
    assert_eq!(band_step(26), 6);
    assert_eq!(band_step(40), 6);
}

#[test]
fn cone_rows_of_a_forty_year_plan() {
    let shown: Vec<usize> = (0..=40).filter(|year| show_band(*year, 40)).collect();
    assert_eq!(shown, vec![0, 6, 12, 18, 24, 30, 36, 40]);
}

#[test]
fn cone_rows_of_a_short_plan_show_every_year() {
    let shown: Vec<usize> = (0..=8).filter(|year| show_band(*year, 8)).collect();
    assert_eq!(shown, vec![0, 1, 2, 3, 4, 5, 6, 7, 8]);
}

#[test]
fn cone_always_shows_both_ends() {
    for years in [1usize, 7, 13, 23, 29, 31] {
        assert!(show_band(0, years));
        assert!(show_band(years, years));
    }
    assert!(!show_band(7, 23));
}

#[test]
fn histogram_peak_is_largest_count() {
    assert_eq!(histogram_peak(&vec![3, 9, 4]), 9);
    assert_eq!(histogram_peak(&vec![5]), 5);
}

#[test]
fn histogram_peak_is_at_least_one() {
    assert_eq!(histogram_peak(&vec![]), 1);
    assert_eq!(histogram_peak(&vec![0, 0, 0]), 1);
}
