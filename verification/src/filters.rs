//! The predicates that a filter can hold, one kind for each type of column,
//! and what it means for a cell to satisfy one.

use crate::field::{id_listed, lists_id, FieldType};
use crate::row::CellData;
use crate::text::{
    chars_of, contains_chars, contains_text, ends_with_chars, ends_with_text, starts_with_chars,
    starts_with_text,
};
use vstd::prelude::*;

verus! {

/// How a text filter compares a cell's text with its operand. Comparison is
/// by characters and distinguishes upper from lower case.
#[derive(Clone, Copy, Debug, PartialEq, Eq, Structural)]
pub enum TextFilterCondition {
    Is,
    IsNot,
    Contains,
    DoesNotContain,
    StartsWith,
    EndsWith,
}

/// A filter on a text column or on a link column.
#[derive(Clone, Debug, PartialEq, Eq)]
pub struct GridTextFilter {
    pub condition: TextFilterCondition,
    pub content: String,
}

/// How a number filter compares a cell's rounded value with its operand.
#[derive(Clone, Copy, Debug, PartialEq, Eq, Structural)]
pub enum NumberFilterCondition {
    Equal,
    NotEqual,
    GreaterThan,
    LessThan,
    GreaterThanOrEqualTo,
    LessThanOrEqualTo,
}

/// A filter on a number column. The operand is a whole number. A cell's
/// value, which is held in thousandths, is rounded to the nearest whole
/// number before it is compared, halves away from zero.
#[derive(Clone, Copy, Debug, PartialEq, Eq)]
pub struct GridNumberFilter {
    pub condition: NumberFilterCondition,
    pub content: i64,
}

/// A filter on a date column: the cell's time must lie between `start` and
/// `end`, both included.
#[derive(Clone, Copy, Debug, PartialEq, Eq)]
pub struct GridDateFilter {
    pub start: i64,
    pub end: i64,
}

/// Whether a selection filter asks for one of its options or for none.
#[derive(Clone, Copy, Debug, PartialEq, Eq, Structural)]
pub enum SelectOptionCondition {
    OptionIs,
    OptionIsNot,
}

/// A filter on a single-select or multi-select column, with the set of
/// options that it looks for.
#[derive(Clone, Debug, PartialEq, Eq)]
pub struct GridSelectOptionFilter {
    pub condition: SelectOptionCondition,
    pub option_ids: Vec<String>,
}

/// Which state of a checkbox a filter asks for.
#[derive(Clone, Copy, Debug, PartialEq, Eq, Structural)]
pub enum CheckboxCondition {
    IsChecked,
    IsUnChecked,
}

/// A filter on a checkbox column.
#[derive(Clone, Copy, Debug, PartialEq, Eq)]
pub struct GridCheckboxFilter {
    pub condition: CheckboxCondition,
}

/// A predicate of any kind.
#[derive(Clone, Debug, PartialEq, Eq)]
pub enum FilterPredicate {
    Text(GridTextFilter),
    Number(GridNumberFilter),
    Date(GridDateFilter),
    SingleSelect(GridSelectOptionFilter),
    MultiSelect(GridSelectOptionFilter),
    Checkbox(GridCheckboxFilter),
    Url(GridTextFilter),
}

/// A number given in thousandths, rounded to the nearest whole number,
/// halves away from zero.
pub open spec fn spec_round_to_whole(thousandths: int) -> int {
    if thousandths >= 0 {
        (thousandths + 500) / 1000
    } else {
        -((500 - thousandths) / 1000)
    }
}

/// Rounds a number given in thousandths to the nearest whole number, halves
/// away from zero.
pub fn round_to_whole(thousandths: i64) -> (whole: i64)
    ensures
        whole == spec_round_to_whole(thousandths as int),
{
    if thousandths >= 0 {
        let quotient: i64 = thousandths / 1000;
        let rest: i64 = thousandths % 1000;
        if rest >= 500 {
            quotient + 1
        } else {
            quotient
        }
    } else {
        // One less than the magnitude, which always fits.
        let below: i64 = -(thousandths + 1);
        let quotient: i64 = below / 1000;
        let rest: i64 = below % 1000;
        if rest >= 499 {
            -(quotient + 1)
        } else {
            -quotient
        }
    }
}

/// Some selected option is one of `options`.
pub open spec fn shares_option(selected: Seq<String>, options: Seq<String>) -> bool {
    exists|i: int, j: int|
        0 <= i < selected.len() && 0 <= j < options.len() && (#[trigger] selected[i])@ == (
        #[trigger] options[j])@
}

impl GridTextFilter {
    /// Whether `text` satisfies the filter.
    pub open spec fn spec_is_match(&self, text: Seq<char>) -> bool {
        match self.condition {
            TextFilterCondition::Is => text == self.content@,
            TextFilterCondition::IsNot => text != self.content@,
            TextFilterCondition::Contains => contains_text(text, self.content@),
            TextFilterCondition::DoesNotContain => !contains_text(text, self.content@),
            TextFilterCondition::StartsWith => starts_with_text(text, self.content@),
            TextFilterCondition::EndsWith => ends_with_text(text, self.content@),
        }
    }

    /// Whether `text` satisfies the filter.
    pub fn is_match(&self, text: &String) -> (matched: bool)
        ensures
            matched == self.spec_is_match(text@),
    {
        match self.condition {
            TextFilterCondition::Is => *text == self.content,
            TextFilterCondition::IsNot => !(*text == self.content),
            TextFilterCondition::Contains => {
                contains_chars(&chars_of(text), &chars_of(&self.content))
            },
            TextFilterCondition::DoesNotContain => {
                !contains_chars(&chars_of(text), &chars_of(&self.content))
            },
            TextFilterCondition::StartsWith => {
                starts_with_chars(&chars_of(text), &chars_of(&self.content))
            },
            TextFilterCondition::EndsWith => {
                ends_with_chars(&chars_of(text), &chars_of(&self.content))
            },
        }
    }
}

impl GridNumberFilter {
    /// Whether a value given in thousandths satisfies the filter.
    pub open spec fn spec_is_match(&self, thousandths: i64) -> bool {
        let whole = spec_round_to_whole(thousandths as int);
        match self.condition {
            NumberFilterCondition::Equal => whole == self.content,
            NumberFilterCondition::NotEqual => whole != self.content,
            NumberFilterCondition::GreaterThan => whole > self.content,
            NumberFilterCondition::LessThan => whole < self.content,
            NumberFilterCondition::GreaterThanOrEqualTo => whole >= self.content,
            NumberFilterCondition::LessThanOrEqualTo => whole <= self.content,
        }
    }

    /// Whether a value given in thousandths satisfies the filter.
    pub fn is_match(&self, thousandths: i64) -> (matched: bool)
        ensures
            matched == self.spec_is_match(thousandths),
    {
        let whole: i64 = round_to_whole(thousandths);
        match self.condition {
            NumberFilterCondition::Equal => whole == self.content,
            NumberFilterCondition::NotEqual => whole != self.content,
            NumberFilterCondition::GreaterThan => whole > self.content,
            NumberFilterCondition::LessThan => whole < self.content,
            NumberFilterCondition::GreaterThanOrEqualTo => whole >= self.content,
            NumberFilterCondition::LessThanOrEqualTo => whole <= self.content,
        }
    }
}

impl GridDateFilter {
    /// Whether a time lies in the range, ends included.
    pub open spec fn spec_is_match(&self, time: i64) -> bool {
        self.start <= time <= self.end
    }

    /// Whether a time lies in the range, ends included.
    pub fn is_match(&self, time: i64) -> (matched: bool)
        ensures
            matched == self.spec_is_match(time),
    {
        self.start <= time && time <= self.end
    }
}

impl GridSelectOptionFilter {
    /// Whether a selection satisfies the filter.
    pub open spec fn spec_is_match(&self, selected: Seq<String>) -> bool {
        match self.condition {
            SelectOptionCondition::OptionIs => shares_option(selected, self.option_ids@),
            SelectOptionCondition::OptionIsNot => !shares_option(selected, self.option_ids@),
        }
    }

    /// Whether a selection satisfies the filter.
    pub fn is_match(&self, selected: &Vec<String>) -> (matched: bool)
        ensures
            matched == self.spec_is_match(selected@),
    {
        let mut shared: bool = false;
        let mut i: usize = 0;
        while i < selected.len() && !shared
            invariant
                i <= selected@.len(),
                shared ==> shares_option(selected@, self.option_ids@),
                !shared ==> forall|k: int|
                    0 <= k < i ==> !lists_id(self.option_ids@, (#[trigger] selected@[k])@),
            decreases selected@.len() - i,
        {
            if id_listed(&self.option_ids, &selected[i]) {
                proof {
                    let j = choose|j: int|
                        0 <= j < self.option_ids@.len() && (#[trigger] self.option_ids@[j])@
                            == selected@[i as int]@;
                    assert(selected@[i as int]@ == self.option_ids@[j]@);
                }
                shared = true;
            }
            i = i + 1;
        }
        proof {
            if !shared && shares_option(selected@, self.option_ids@) {
                let (a, b) = choose|a: int, b: int|
                    0 <= a < selected@.len() && 0 <= b < self.option_ids@.len() && (
                    #[trigger] selected@[a])@ == (#[trigger] self.option_ids@[b])@;
                assert(lists_id(self.option_ids@, selected@[a]@));
            }
        }
        match self.condition {
            SelectOptionCondition::OptionIs => shared,
            SelectOptionCondition::OptionIsNot => !shared,
        }
    }
}

impl GridCheckboxFilter {
    /// Whether a checkbox in the given state satisfies the filter.
    pub open spec fn spec_is_match(&self, checked: bool) -> bool {
        match self.condition {
            CheckboxCondition::IsChecked => checked,
            CheckboxCondition::IsUnChecked => !checked,
        }
    }

    /// Whether a checkbox in the given state satisfies the filter.
    pub fn is_match(&self, checked: bool) -> (matched: bool)
        ensures
            matched == self.spec_is_match(checked),
    {
        match self.condition {
            CheckboxCondition::IsChecked => checked,
            CheckboxCondition::IsUnChecked => !checked,
        }
    }
}

impl FilterPredicate {
    /// The type of column that a predicate of this kind belongs to.
    pub open spec fn spec_field_type(&self) -> FieldType {
        match self {
            FilterPredicate::Text(_) => FieldType::RichText,
            FilterPredicate::Number(_) => FieldType::Number,
            FilterPredicate::Date(_) => FieldType::DateTime,
            FilterPredicate::SingleSelect(_) => FieldType::SingleSelect,
            FilterPredicate::MultiSelect(_) => FieldType::MultiSelect,
            FilterPredicate::Checkbox(_) => FieldType::Checkbox,
            FilterPredicate::Url(_) => FieldType::URL,
        }
    }

    /// The type of column that a predicate of this kind belongs to.
    pub fn field_type(&self) -> (field_type: FieldType)
        ensures
            field_type == self.spec_field_type(),
    {
        match self {
            FilterPredicate::Text(_) => FieldType::RichText,
            FilterPredicate::Number(_) => FieldType::Number,
            FilterPredicate::Date(_) => FieldType::DateTime,
            FilterPredicate::SingleSelect(_) => FieldType::SingleSelect,
            FilterPredicate::MultiSelect(_) => FieldType::MultiSelect,
            FilterPredicate::Checkbox(_) => FieldType::Checkbox,
            FilterPredicate::Url(_) => FieldType::URL,
        }
    }

    /// Whether a cell satisfies the predicate. A cell that holds a value of
    /// another kind than the predicate asks for does not satisfy it.
    pub open spec fn spec_is_match(&self, cell: CellData) -> bool {
        match self {
            FilterPredicate::Text(filter) => match cell {
                CellData::Text(text) => filter.spec_is_match(text@),
                _ => false,
            },
            FilterPredicate::Number(filter) => match cell {
                CellData::Number(thousandths) => filter.spec_is_match(thousandths),
                _ => false,
            },
            FilterPredicate::Date(filter) => match cell {
                CellData::Date(time) => filter.spec_is_match(time),
                _ => false,
            },
            FilterPredicate::SingleSelect(filter) => match cell {
                CellData::SelectOptions(selected) => filter.spec_is_match(selected@),
                _ => false,
            },
            FilterPredicate::MultiSelect(filter) => match cell {
                CellData::SelectOptions(selected) => filter.spec_is_match(selected@),
                _ => false,
            },
            FilterPredicate::Checkbox(filter) => match cell {
                CellData::Checkbox(checked) => filter.spec_is_match(checked),
                _ => false,
            },
            FilterPredicate::Url(filter) => match cell {
                CellData::Url(link) => filter.spec_is_match(link@),
                _ => false,
            },
        }
    }

    /// Whether a cell satisfies the predicate.
    pub fn is_match(&self, cell: &CellData) -> (matched: bool)
        ensures
            matched == self.spec_is_match(*cell),
    {
        match self {
            FilterPredicate::Text(filter) => match cell {
                CellData::Text(text) => filter.is_match(text),
                _ => false,
            },
            FilterPredicate::Number(filter) => match cell {
                CellData::Number(thousandths) => filter.is_match(*thousandths),
                _ => false,
            },
            FilterPredicate::Date(filter) => match cell {
                CellData::Date(time) => filter.is_match(*time),
                _ => false,
            },
            FilterPredicate::SingleSelect(filter) => match cell {
                CellData::SelectOptions(selected) => filter.is_match(selected),
                _ => false,
            },
            FilterPredicate::MultiSelect(filter) => match cell {
                CellData::SelectOptions(selected) => filter.is_match(selected),
                _ => false,
            },
            FilterPredicate::Checkbox(filter) => match cell {
                CellData::Checkbox(checked) => filter.is_match(*checked),
                _ => false,
            },
            FilterPredicate::Url(filter) => match cell {
                CellData::Url(link) => filter.is_match(link),
                _ => false,
            },
        }
    }
}

} // verus!
