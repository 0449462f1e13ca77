use jjamcore::menu::{format_menu, normalize_pair, normalize_row, MealSlot, MenuRow};

fn row(
    dates: &str,
    brst: &str,
    brst_cal: &str,
    lunc: &str,
    lunc_cal: &str,
    dinr: &str,
    dinr_cal: &str,
    sum_cal: &str,
) -> MenuRow {
    MenuRow {
        dates: dates.to_string(),
        brst: brst.to_string(),
        brst_cal: brst_cal.to_string(),
        lunc: lunc.to_string(),
        lunc_cal: lunc_cal.to_string(),
        dinr: dinr.to_string(),
        dinr_cal: dinr_cal.to_string(),
        adspcfd: String::new(),
        adspcfd_cal: String::new(),
        sum_cal: sum_cal.to_string(),
    }
}

#[test]
fn swapped_pair_is_repaired() {
    // the source put the calorie figure in the description field
    let (desc, cal) = normalize_pair("320kcal", "밤양갱");
    assert_eq!(desc, "밤양갱");
    assert_eq!(cal, "320");
}

#[test]
fn lone_description_in_calorie_field_moves_over() {
    let (desc, cal) = normalize_pair("", "밤양갱");
    assert_eq!(desc, "밤양갱");
    assert_eq!(cal, "");
}

#[test]
fn suffixed_calorie_field_is_stripped() {
    let (desc, cal) = normalize_pair("떡국", "450kcal");
    assert_eq!(desc, "떡국");
    assert_eq!(cal, "450");
}

#[test]
fn normalize_row_touches_every_slot_and_the_date() {
    let raw = MenuRow {
        dates: "2024-03-04(월) 12:00".to_string(),
        brst: "320kcal".to_string(),
        brst_cal: "밤양갱".to_string(),
        lunc: "".to_string(),
        lunc_cal: "비빔밥".to_string(),
        dinr: "떡국".to_string(),
        dinr_cal: "450kcal".to_string(),
        adspcfd: "우유".to_string(),
        adspcfd_cal: "65kcal".to_string(),
        sum_cal: "2900kcal".to_string(),
    };
    let out = normalize_row(&raw);
    assert_eq!(out.dates, "2024-03-04");
    assert_eq!(out.brst, "밤양갱");
    assert_eq!(out.brst_cal, "320");
    assert_eq!(out.lunc, "비빔밥");
    assert_eq!(out.lunc_cal, "");
    assert_eq!(out.dinr, "떡국");
    assert_eq!(out.dinr_cal, "450");
    assert_eq!(out.adspcfd, "우유");
    assert_eq!(out.adspcfd_cal, "65");
    assert_eq!(out.sum_cal, "2900");
}

#[test]
fn short_date_and_short_sum_are_kept_as_is() {
    let raw = row("2024-03-04", "죽", "100kcal", "", "", "", "", "950");
    let out = normalize_row(&raw);
    assert_eq!(out.dates, "2024-03-04");
    // three characters: too short to carry a unit suffix, kept as is
    assert_eq!(out.sum_cal, "950");
    let raw2 = row("2024-03-04", "", "", "", "", "", "", "950kcal");
    assert_eq!(normalize_row(&raw2).sum_cal, "950");
    // exactly four characters: the whole field is taken to be the suffix
    let raw3 = row("2024-03-04", "", "", "", "", "", "", "1200");
    assert_eq!(normalize_row(&raw3).sum_cal, "");
}

#[test]
fn menu_text_lists_each_filled_line() {
    let rows = vec![
        row("2024-03-04", "밥", "300", "국", "200", "전", "150", "2900"),
        row("2024-03-04", "", "", "찌개", "400", "", "", "2900"),
    ];
    let text = format_menu(&rows, "점심 메뉴", MealSlot::Lunch).unwrap();
    assert_eq!(text, "<b>점심 메뉴</b> [2900kcal]\n\n국 [200kcal]\n찌개 [400kcal]");
}

#[test]
fn menu_text_skips_fully_empty_slot_lines() {
    let rows = vec![
        row("2024-03-04", "밥", "300", "", "", "", "", "1200"),
        row("2024-03-04", "", "", "", "", "", "", "1200"),
    ];
    let text = format_menu(&rows, "아침 메뉴", MealSlot::Breakfast).unwrap();
    assert_eq!(text, "<b>아침 메뉴</b> [1200kcal]\n\n밥 [300kcal]");
    // a line with only a calorie figure is still shown
    let rows2 = vec![row("2024-03-04", "", "120", "", "", "", "", "1200")];
    let text2 = format_menu(&rows2, "아침 메뉴", MealSlot::Breakfast).unwrap();
    assert_eq!(text2, "<b>아침 메뉴</b> [1200kcal]\n\n [120kcal]");
}

#[test]
fn empty_day_formats_nothing() {
    let rows: Vec<MenuRow> = Vec::new();
    assert!(format_menu(&rows, "아침 메뉴", MealSlot::Breakfast).is_none());
}
