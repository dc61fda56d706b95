use grid_filter::field::FieldType;
use grid_filter::filters::{
    round_to_whole, CheckboxCondition, FilterPredicate, GridCheckboxFilter, GridDateFilter,
    GridNumberFilter, GridSelectOptionFilter, GridTextFilter, NumberFilterCondition,
    SelectOptionCondition, TextFilterCondition,
};
use grid_filter::row::CellData;
use grid_filter::text::{
    chars_of, contains_chars, ends_with_chars, occurs_at_position, starts_with_chars,
};

fn s(text: &str) -> String {
    text.to_string()
}

fn chars(text: &str) -> Vec<char> {
    text.chars().collect()
}

fn text_filter(condition: TextFilterCondition, content: &str) -> GridTextFilter {
    GridTextFilter { condition, content: s(content) }
}

fn number_filter(condition: NumberFilterCondition, content: i64) -> GridNumberFilter {
    GridNumberFilter { condition, content }
}

#[test]
fn chars_of_gives_each_character() {
    assert_eq!(chars_of(&s("")), Vec::<char>::new());
    assert_eq!(chars_of(&s("abc")), vec!['a', 'b', 'c']);
    assert_eq!(chars_of(&s("né→x")), vec!['n', 'é', '→', 'x']);
}

#[test]
fn occurs_at_position_checks_the_place() {
    assert!(occurs_at_position(&chars("hello"), &chars("ell"), 1));
    assert!(!occurs_at_position(&chars("hello"), &chars("ell"), 0));
    assert!(!occurs_at_position(&chars("hello"), &chars("llo"), 3));
    assert!(occurs_at_position(&chars("hello"), &chars(""), 5));
    assert!(!occurs_at_position(&chars("hello"), &chars(""), 6));
    assert!(!occurs_at_position(&chars("hi"), &chars("high"), 0));
}

#[test]
fn contains_chars_finds_substrings() {
    assert!(contains_chars(&chars("hello world"), &chars("o w")));
    assert!(contains_chars(&chars("hello"), &chars("hello")));
    assert!(contains_chars(&chars("hello"), &chars("o")));
    assert!(contains_chars(&chars("hello"), &chars("")));
    assert!(contains_chars(&chars(""), &chars("")));
    assert!(!contains_chars(&chars("hello"), &chars("world")));
    assert!(!contains_chars(&chars("hello"), &chars("hello!")));
    assert!(!contains_chars(&chars(""), &chars("a")));
    assert!(!contains_chars(&chars("Hello"), &chars("hello")));
}

#[test]
fn starts_and_ends_with_chars() {
    assert!(starts_with_chars(&chars("hello"), &chars("he")));
    assert!(!starts_with_chars(&chars("hello"), &chars("el")));
    assert!(starts_with_chars(&chars("hello"), &chars("")));
    assert!(!starts_with_chars(&chars("he"), &chars("hello")));
    assert!(ends_with_chars(&chars("hello"), &chars("llo")));
    assert!(!ends_with_chars(&chars("hello"), &chars("ell")));
    assert!(ends_with_chars(&chars("hello"), &chars("")));
    assert!(!ends_with_chars(&chars("lo"), &chars("hello")));
}

#[test]
fn text_filter_conditions() {
    let cell = s("grid filter");
    assert!(text_filter(TextFilterCondition::Is, "grid filter").is_match(&cell));
    assert!(!text_filter(TextFilterCondition::Is, "grid").is_match(&cell));
    assert!(text_filter(TextFilterCondition::IsNot, "grid").is_match(&cell));
    assert!(!text_filter(TextFilterCondition::IsNot, "grid filter").is_match(&cell));
    assert!(text_filter(TextFilterCondition::Contains, "d f").is_match(&cell));
    assert!(!text_filter(TextFilterCondition::Contains, "df").is_match(&cell));
    assert!(text_filter(TextFilterCondition::DoesNotContain, "df").is_match(&cell));
    assert!(!text_filter(TextFilterCondition::DoesNotContain, "d f").is_match(&cell));
    assert!(text_filter(TextFilterCondition::StartsWith, "grid").is_match(&cell));
    assert!(!text_filter(TextFilterCondition::StartsWith, "filter").is_match(&cell));
    assert!(text_filter(TextFilterCondition::EndsWith, "filter").is_match(&cell));
    assert!(!text_filter(TextFilterCondition::EndsWith, "grid").is_match(&cell));
}

#[test]
fn round_to_whole_rounds_halves_away_from_zero() {
    assert_eq!(round_to_whole(0), 0);
    assert_eq!(round_to_whole(499), 0);
    assert_eq!(round_to_whole(500), 1);
    assert_eq!(round_to_whole(5000), 5);
    assert_eq!(round_to_whole(5499), 5);
    assert_eq!(round_to_whole(5500), 6);
    assert_eq!(round_to_whole(-499), 0);
    assert_eq!(round_to_whole(-500), -1);
    assert_eq!(round_to_whole(-5499), -5);
    assert_eq!(round_to_whole(-5500), -6);
    assert_eq!(round_to_whole(1), 0);
    assert_eq!(round_to_whole(-1), 0);
}

#[test]
fn round_to_whole_at_the_ends_of_the_range() {
    assert_eq!(round_to_whole(i64::MAX), 9_223_372_036_854_776);
    assert_eq!(round_to_whole(i64::MIN), -9_223_372_036_854_776);
    assert_eq!(round_to_whole(i64::MIN + 1), -9_223_372_036_854_776);
}

#[test]
fn number_filter_compares_the_rounded_value() {
    assert!(number_filter(NumberFilterCondition::Equal, 5).is_match(5000));
    assert!(number_filter(NumberFilterCondition::Equal, 5).is_match(5499));
    assert!(number_filter(NumberFilterCondition::Equal, 5).is_match(4500));
    assert!(!number_filter(NumberFilterCondition::Equal, 5).is_match(5500));
    assert!(!number_filter(NumberFilterCondition::Equal, 5).is_match(4499));
    assert!(number_filter(NumberFilterCondition::NotEqual, 5).is_match(5500));
    assert!(!number_filter(NumberFilterCondition::NotEqual, 5).is_match(5000));
    assert!(number_filter(NumberFilterCondition::GreaterThan, 5).is_match(5500));
    assert!(!number_filter(NumberFilterCondition::GreaterThan, 5).is_match(5499));
    assert!(number_filter(NumberFilterCondition::LessThan, 5).is_match(4499));
    assert!(!number_filter(NumberFilterCondition::LessThan, 5).is_match(4500));
    assert!(number_filter(NumberFilterCondition::GreaterThanOrEqualTo, 5).is_match(4500));
    assert!(!number_filter(NumberFilterCondition::GreaterThanOrEqualTo, 5).is_match(4499));
    assert!(number_filter(NumberFilterCondition::LessThanOrEqualTo, 5).is_match(5499));
    assert!(!number_filter(NumberFilterCondition::LessThanOrEqualTo, 5).is_match(5500));
    assert!(number_filter(NumberFilterCondition::Equal, -2).is_match(-2499));
    assert!(number_filter(NumberFilterCondition::Equal, -2).is_match(-1500));
    assert!(!number_filter(NumberFilterCondition::Equal, -2).is_match(-2500));
    assert!(!number_filter(NumberFilterCondition::Equal, -2).is_match(-1499));
}

#[test]
fn date_filter_includes_both_ends() {
    let filter = GridDateFilter { start: 100, end: 200 };
    assert!(filter.is_match(100));
    assert!(filter.is_match(150));
    assert!(filter.is_match(200));
    assert!(!filter.is_match(99));
    assert!(!filter.is_match(201));
    let empty = GridDateFilter { start: 200, end: 100 };
    assert!(!empty.is_match(150));
    let point = GridDateFilter { start: -5, end: -5 };
    assert!(point.is_match(-5));
    assert!(!point.is_match(-4));
}

#[test]
fn select_option_filter_is_membership() {
    let is = GridSelectOptionFilter {
        condition: SelectOptionCondition::OptionIs,
        option_ids: vec![s("red"), s("blue")],
    };
    assert!(is.is_match(&vec![s("blue")]));
    assert!(is.is_match(&vec![s("green"), s("red")]));
    assert!(!is.is_match(&vec![s("green")]));
    assert!(!is.is_match(&Vec::new()));
    let is_not = GridSelectOptionFilter {
        condition: SelectOptionCondition::OptionIsNot,
        option_ids: vec![s("red"), s("blue")],
    };
    assert!(!is_not.is_match(&vec![s("blue")]));
    assert!(!is_not.is_match(&vec![s("green"), s("red")]));
    assert!(is_not.is_match(&vec![s("green")]));
    assert!(is_not.is_match(&Vec::new()));
    let none = GridSelectOptionFilter {
        condition: SelectOptionCondition::OptionIs,
        option_ids: Vec::new(),
    };
    assert!(!none.is_match(&vec![s("red")]));
}

#[test]
fn checkbox_filter_is_equality() {
    let checked = GridCheckboxFilter { condition: CheckboxCondition::IsChecked };
    let unchecked = GridCheckboxFilter { condition: CheckboxCondition::IsUnChecked };
    assert!(checked.is_match(true));
    assert!(!checked.is_match(false));
    assert!(unchecked.is_match(false));
    assert!(!unchecked.is_match(true));
}

#[test]
fn predicate_belongs_to_one_field_type() {
    let text = text_filter(TextFilterCondition::Is, "a");
    let select = GridSelectOptionFilter {
        condition: SelectOptionCondition::OptionIs,
        option_ids: Vec::new(),
    };
    assert_eq!(FilterPredicate::Text(text.clone()).field_type(), FieldType::RichText);
    assert_eq!(FilterPredicate::Url(text).field_type(), FieldType::URL);
    assert_eq!(
        FilterPredicate::Number(number_filter(NumberFilterCondition::Equal, 1)).field_type(),
        FieldType::Number
    );
    assert_eq!(
        FilterPredicate::Date(GridDateFilter { start: 0, end: 1 }).field_type(),
        FieldType::DateTime
    );
    assert_eq!(FilterPredicate::SingleSelect(select.clone()).field_type(), FieldType::SingleSelect);
    assert_eq!(FilterPredicate::MultiSelect(select).field_type(), FieldType::MultiSelect);
    assert_eq!(
        FilterPredicate::Checkbox(GridCheckboxFilter { condition: CheckboxCondition::IsChecked })
            .field_type(),
        FieldType::Checkbox
    );
}

#[test]
fn predicate_matches_cells_of_its_kind() {
    let text = FilterPredicate::Text(text_filter(TextFilterCondition::Contains, "ab"));
    assert!(text.is_match(&CellData::Text(s("cabin"))));
    assert!(!text.is_match(&CellData::Text(s("cbain"))));
    let url = FilterPredicate::Url(text_filter(TextFilterCondition::StartsWith, "https://"));
    assert!(url.is_match(&CellData::Url(s("https://example.org"))));
    assert!(!url.is_match(&CellData::Url(s("http://example.org"))));
    let number = FilterPredicate::Number(number_filter(NumberFilterCondition::Equal, 5));
    assert!(number.is_match(&CellData::Number(5000)));
    assert!(!number.is_match(&CellData::Number(6000)));
    let date = FilterPredicate::Date(GridDateFilter { start: 10, end: 20 });
    assert!(date.is_match(&CellData::Date(20)));
    assert!(!date.is_match(&CellData::Date(21)));
    let options = GridSelectOptionFilter {
        condition: SelectOptionCondition::OptionIs,
        option_ids: vec![s("a")],
    };
    let single = FilterPredicate::SingleSelect(options.clone());
    let multi = FilterPredicate::MultiSelect(options);
    assert!(single.is_match(&CellData::SelectOptions(vec![s("a")])));
    assert!(!single.is_match(&CellData::SelectOptions(vec![s("b")])));
    assert!(multi.is_match(&CellData::SelectOptions(vec![s("b"), s("a")])));
    assert!(!multi.is_match(&CellData::SelectOptions(vec![s("b"), s("c")])));
    let checkbox =
        FilterPredicate::Checkbox(GridCheckboxFilter { condition: CheckboxCondition::IsChecked });
    assert!(checkbox.is_match(&CellData::Checkbox(true)));
    assert!(!checkbox.is_match(&CellData::Checkbox(false)));
}

#[test]
fn predicate_fails_on_cells_of_another_kind() {
    let text = FilterPredicate::Text(text_filter(TextFilterCondition::IsNot, "x"));
    assert!(text.is_match(&CellData::Text(s("y"))));
    assert!(!text.is_match(&CellData::Url(s("y"))));
    assert!(!text.is_match(&CellData::Number(1)));
    let url = FilterPredicate::Url(text_filter(TextFilterCondition::IsNot, "x"));
    assert!(!url.is_match(&CellData::Text(s("y"))));
    let number = FilterPredicate::Number(number_filter(NumberFilterCondition::NotEqual, 5));
    assert!(!number.is_match(&CellData::Date(1000)));
    assert!(!number.is_match(&CellData::Text(s("1"))));
    let date = FilterPredicate::Date(GridDateFilter { start: i64::MIN, end: i64::MAX });
    assert!(!date.is_match(&CellData::Number(0)));
    let is_not = FilterPredicate::MultiSelect(GridSelectOptionFilter {
        condition: SelectOptionCondition::OptionIsNot,
        option_ids: Vec::new(),
    });
    assert!(!is_not.is_match(&CellData::Checkbox(true)));
    let unchecked =
        FilterPredicate::Checkbox(GridCheckboxFilter { condition: CheckboxCondition::IsUnChecked });
    assert!(!unchecked.is_match(&CellData::SelectOptions(Vec::new())));
}
