//! The column filters: the text typed into each column's filter, the
//! predicates that the texts stand for, and the rows that pass them.

use vstd::prelude::*;
use crate::log_message::LogReaderMessage;
use crate::number::{parse_number, parse_unsigned};
use crate::record::{instant_of, parsed_instant, Record, Timestamp};
use crate::text::{contains, contains_text};

verus! {

/// A column of the table that has a filter.
#[derive(Debug, Clone, Copy, PartialEq, Eq, Structural)]
pub enum FilterColumn {
    LogName,
    Date,
    ComputerName,
    ProcessId,
    ProcessUser,
    ModuleName,
    MessageId,
    LogLevel,
    Facility,
    LogMessage,
}

impl FilterColumn {
    /// The message that carries a new text for this column's filter.
    pub open spec fn message_spec(self, text: String) -> LogReaderMessage {
        match self {
            FilterColumn::LogName => LogReaderMessage::IDInput(text),
            FilterColumn::Date => LogReaderMessage::DateInput(text),
            FilterColumn::ComputerName => LogReaderMessage::ComputerNameInput(text),
            FilterColumn::ProcessId => LogReaderMessage::ProcessIDInput(text),
            FilterColumn::ProcessUser => LogReaderMessage::ProcessUserInput(text),
            FilterColumn::ModuleName => LogReaderMessage::ModuleNameInput(text),
            FilterColumn::MessageId => LogReaderMessage::MessageIDInput(text),
            FilterColumn::LogLevel => LogReaderMessage::LogLevelInput(text),
            FilterColumn::Facility => LogReaderMessage::FacilityInput(text),
            FilterColumn::LogMessage => LogReaderMessage::LogMessageInput(text),
        }
    }

    /// The message that carries a new text for this column's filter.
    pub fn message(self, text: String) -> (msg: LogReaderMessage)
        ensures
            msg == self.message_spec(text),
    {
        match self {
            FilterColumn::LogName => LogReaderMessage::IDInput(text),
            FilterColumn::Date => LogReaderMessage::DateInput(text),
            FilterColumn::ComputerName => LogReaderMessage::ComputerNameInput(text),
            FilterColumn::ProcessId => LogReaderMessage::ProcessIDInput(text),
            FilterColumn::ProcessUser => LogReaderMessage::ProcessUserInput(text),
            FilterColumn::ModuleName => LogReaderMessage::ModuleNameInput(text),
            FilterColumn::MessageId => LogReaderMessage::MessageIDInput(text),
            FilterColumn::LogLevel => LogReaderMessage::LogLevelInput(text),
            FilterColumn::Facility => LogReaderMessage::FacilityInput(text),
            FilterColumn::LogMessage => LogReaderMessage::LogMessageInput(text),
        }
    }
}

/// The filter of one column: the text typed into it. An empty text filters
/// nothing.
#[derive(Debug)]
pub struct MyFilter {
    pub value: String,
}

/// The filters of all columns.
#[derive(Debug)]
pub struct MyFilters {
    pub log_name: MyFilter,
    pub date: MyFilter,
    pub computer_name: MyFilter,
    pub process_id: MyFilter,
    pub process_user: MyFilter,
    pub module_name: MyFilter,
    pub message_id: MyFilter,
    pub log_level: MyFilter,
    pub facility: MyFilter,
    pub log_message: MyFilter,
}

/// The texts of all filters, as sequences of characters.
pub struct FilterTexts {
    pub log_name: Seq<char>,
    pub date: Seq<char>,
    pub computer_name: Seq<char>,
    pub process_id: Seq<char>,
    pub process_user: Seq<char>,
    pub module_name: Seq<char>,
    pub message_id: Seq<char>,
    pub log_level: Seq<char>,
    pub facility: Seq<char>,
    pub log_message: Seq<char>,
}

impl FilterTexts {
    /// Every filter empty.
    pub open spec fn blank() -> FilterTexts {
        FilterTexts {
            log_name: Seq::empty(),
            date: Seq::empty(),
            computer_name: Seq::empty(),
            process_id: Seq::empty(),
            process_user: Seq::empty(),
            module_name: Seq::empty(),
            message_id: Seq::empty(),
            log_level: Seq::empty(),
            facility: Seq::empty(),
            log_message: Seq::empty(),
        }
    }

    /// The text of one column's filter.
    pub open spec fn get(self, column: FilterColumn) -> Seq<char> {
        match column {
            FilterColumn::LogName => self.log_name,
            FilterColumn::Date => self.date,
            FilterColumn::ComputerName => self.computer_name,
            FilterColumn::ProcessId => self.process_id,
            FilterColumn::ProcessUser => self.process_user,
            FilterColumn::ModuleName => self.module_name,
            FilterColumn::MessageId => self.message_id,
            FilterColumn::LogLevel => self.log_level,
            FilterColumn::Facility => self.facility,
            FilterColumn::LogMessage => self.log_message,
        }
    }

    /// These texts with one column's filter replaced.
    pub open spec fn set(self, column: FilterColumn, text: Seq<char>) -> FilterTexts {
        match column {
            FilterColumn::LogName => FilterTexts { log_name: text, ..self },
            FilterColumn::Date => FilterTexts { date: text, ..self },
            FilterColumn::ComputerName => FilterTexts { computer_name: text, ..self },
            FilterColumn::ProcessId => FilterTexts { process_id: text, ..self },
            FilterColumn::ProcessUser => FilterTexts { process_user: text, ..self },
            FilterColumn::ModuleName => FilterTexts { module_name: text, ..self },
            FilterColumn::MessageId => FilterTexts { message_id: text, ..self },
            FilterColumn::LogLevel => FilterTexts { log_level: text, ..self },
            FilterColumn::Facility => FilterTexts { facility: text, ..self },
            FilterColumn::LogMessage => FilterTexts { log_message: text, ..self },
        }
    }
}

impl View for MyFilters {
    type V = FilterTexts;

    open spec fn view(&self) -> FilterTexts {
        FilterTexts {
            log_name: self.log_name.value@,
            date: self.date.value@,
            computer_name: self.computer_name.value@,
            process_id: self.process_id.value@,
            process_user: self.process_user.value@,
            module_name: self.module_name.value@,
            message_id: self.message_id.value@,
            log_level: self.log_level.value@,
            facility: self.facility.value@,
            log_message: self.log_message.value@,
        }
    }
}

impl Default for MyFilters {
    /// Every filter empty.
    fn default() -> (filters: Self)
        ensures
            filters@ == FilterTexts::blank(),
    {
        Self {
            log_name: MyFilter { value: String::new() },
            date: MyFilter { value: String::new() },
            computer_name: MyFilter { value: String::new() },
            process_id: MyFilter { value: String::new() },
            process_user: MyFilter { value: String::new() },
            module_name: MyFilter { value: String::new() },
            message_id: MyFilter { value: String::new() },
            log_level: MyFilter { value: String::new() },
            facility: MyFilter { value: String::new() },
            log_message: MyFilter { value: String::new() },
        }
    }
}

impl MyFilters {
    /// The filter of one column.
    pub fn get(&self, column: FilterColumn) -> (filter: &MyFilter)
        ensures
            filter.value@ == self@.get(column),
    {
        match column {
            FilterColumn::LogName => &self.log_name,
            FilterColumn::Date => &self.date,
            FilterColumn::ComputerName => &self.computer_name,
            FilterColumn::ProcessId => &self.process_id,
            FilterColumn::ProcessUser => &self.process_user,
            FilterColumn::ModuleName => &self.module_name,
            FilterColumn::MessageId => &self.message_id,
            FilterColumn::LogLevel => &self.log_level,
            FilterColumn::Facility => &self.facility,
            FilterColumn::LogMessage => &self.log_message,
        }
    }

    /// Replaces the text of one column's filter.
    pub fn set(&mut self, column: FilterColumn, text: String)
        ensures
            final(self)@ == old(self)@.set(column, text@),
    {
        match column {
            FilterColumn::LogName => self.log_name.value = text,
            FilterColumn::Date => self.date.value = text,
            FilterColumn::ComputerName => self.computer_name.value = text,
            FilterColumn::ProcessId => self.process_id.value = text,
            FilterColumn::ProcessUser => self.process_user.value = text,
            FilterColumn::ModuleName => self.module_name.value = text,
            FilterColumn::MessageId => self.message_id.value = text,
            FilterColumn::LogLevel => self.log_level.value = text,
            FilterColumn::Facility => self.facility.value = text,
            FilterColumn::LogMessage => self.log_message.value = text,
        }
    }
}

/// One predicate on a record, as the filtering runs it.
#[derive(Debug, Clone)]
pub enum Predicate {
    /// The record is dated at the instant or later.
    Since(Timestamp),
    ComputerName(String),
    ProcessId(u32),
    ProcessUser(String),
    ModuleName(String),
    MessageId(u32),
    LogLevel(u8),
    Facility(u32),
    LogMessage(String),
}

/// One predicate on a record, with its text as a sequence of characters.
pub enum Criterion {
    Since(Timestamp),
    ComputerName(Seq<char>),
    ProcessId(u32),
    ProcessUser(Seq<char>),
    ModuleName(Seq<char>),
    MessageId(u32),
    LogLevel(u8),
    Facility(u32),
    LogMessage(Seq<char>),
}

impl Criterion {
    /// The record satisfies the predicate: a text predicate asks that the
    /// column holds the text, a number predicate that the column equals the
    /// number, and the date predicate that the record is not older.
    pub open spec fn admits(self, record: Record) -> bool {
        match self {
            Criterion::Since(instant) => record.date.at_or_after(instant),
            Criterion::ComputerName(text) => contains_text(record.computer_name@, text),
            Criterion::ProcessId(number) => record.process_id == number,
            Criterion::ProcessUser(text) => contains_text(record.process_user@, text),
            Criterion::ModuleName(text) => contains_text(record.module_name@, text),
            Criterion::MessageId(number) => record.message_id == number,
            Criterion::LogLevel(number) => record.log_level == number,
            Criterion::Facility(number) => record.facility == number,
            Criterion::LogMessage(text) => contains_text(record.log_message@, text),
        }
    }
}

impl View for Predicate {
    type V = Criterion;

    open spec fn view(&self) -> Criterion {
        match self {
            Predicate::Since(instant) => Criterion::Since(*instant),
            Predicate::ComputerName(text) => Criterion::ComputerName(text@),
            Predicate::ProcessId(number) => Criterion::ProcessId(*number),
            Predicate::ProcessUser(text) => Criterion::ProcessUser(text@),
            Predicate::ModuleName(text) => Criterion::ModuleName(text@),
            Predicate::MessageId(number) => Criterion::MessageId(*number),
            Predicate::LogLevel(number) => Criterion::LogLevel(*number),
            Predicate::Facility(number) => Criterion::Facility(*number),
            Predicate::LogMessage(text) => Criterion::LogMessage(text@),
        }
    }
}

impl Predicate {
    /// Whether the record satisfies the predicate.
    pub fn test(&self, record: &Record) -> (ok: bool)
        ensures
            ok == self@.admits(*record),
    {
        match self {
            Predicate::Since(instant) => record.date.is_at_or_after(instant),
            Predicate::ComputerName(text) => contains(
                record.computer_name.as_str(),
                text.as_str(),
            ),
            Predicate::ProcessId(number) => record.process_id == *number,
            Predicate::ProcessUser(text) => contains(record.process_user.as_str(), text.as_str()),
            Predicate::ModuleName(text) => contains(record.module_name.as_str(), text.as_str()),
            Predicate::MessageId(number) => record.message_id == *number,
            Predicate::LogLevel(number) => record.log_level == *number,
            Predicate::Facility(number) => record.facility == *number,
            Predicate::LogMessage(text) => contains(record.log_message.as_str(), text.as_str()),
        }
    }
}

/// The predicates of a list, each with its text as a sequence of characters.
pub open spec fn criteria_of(predicates: Seq<Predicate>) -> Seq<Criterion> {
    Seq::new(predicates.len(), |k: int| predicates[k]@)
}

/// The record satisfies every predicate of the list.
pub open spec fn admits_all(criteria: Seq<Criterion>, record: Record) -> bool {
    forall|k: int| 0 <= k < criteria.len() ==> (#[trigger] criteria[k]).admits(record)
}

/// Whether the record satisfies every predicate of the list. The predicates
/// are run in order, up to the first that fails.
pub fn passes(record: &Record, predicates: &Vec<Predicate>) -> (ok: bool)
    ensures
        ok == admits_all(criteria_of(predicates@), *record),
{
    let mut k: usize = 0;
    while k < predicates.len()
        invariant
            k <= predicates.len(),
            forall|j: int| 0 <= j < k ==> (#[trigger] criteria_of(predicates@)[j]).admits(*record),
        decreases predicates.len() - k,
    {
        if !predicates[k].test(record) {
            assert(!criteria_of(predicates@)[k as int].admits(*record));
            return false;
        }
        k = k + 1;
    }
    true
}

/// The text of a filter, where the filter is in use: an empty text filters
/// nothing.
pub fn check_str_filter(val: &MyFilter) -> (text: Option<&str>)
    ensures
        text is Some <==> val.value@.len() > 0,
        text matches Some(t) ==> t@ == val.value@,
{
    if !val.value.as_str().is_empty() {
        return Some(val.value.as_str());
    }
    None
}

/// The number that a filter asks for, where its text is a number no greater
/// than `limit`. A text that is no such number filters nothing.
pub fn check_num_filter(val: &MyFilter, limit: u64) -> (number: Option<u64>)
    ensures
        number is Some <==> parse_unsigned(val.value@, limit as nat) is Some,
        number matches Some(n) ==> parse_unsigned(val.value@, limit as nat) == Some(n as nat),
{
    if !val.value.as_str().is_empty() {
        if let Some(n) = parse_number(val.value.as_str(), limit) {
            return Some(n);
        }
    }
    None
}

/// The list of one predicate, or of none.
pub open spec fn optional(criterion: Option<Criterion>) -> Seq<Criterion> {
    match criterion {
        Some(c) => seq![c],
        None => seq![],
    }
}

/// The predicate of a text filter on the column, where the text is not empty.
pub open spec fn text_criterion(column: FilterColumn, text: Seq<char>) -> Option<Criterion> {
    if text.len() == 0 {
        None
    } else {
        match column {
            FilterColumn::ComputerName => Some(Criterion::ComputerName(text)),
            FilterColumn::ProcessUser => Some(Criterion::ProcessUser(text)),
            FilterColumn::ModuleName => Some(Criterion::ModuleName(text)),
            FilterColumn::LogMessage => Some(Criterion::LogMessage(text)),
            _ => None,
        }
    }
}

/// The predicate of a number filter on the column, where the text is a
/// number that the column's type can hold.
pub open spec fn number_criterion(column: FilterColumn, text: Seq<char>) -> Option<Criterion> {
    match column {
        FilterColumn::ProcessId => match parse_unsigned(text, u32::MAX as nat) {
            Some(n) => Some(Criterion::ProcessId(n as u32)),
            None => None,
        },
        FilterColumn::MessageId => match parse_unsigned(text, u32::MAX as nat) {
            Some(n) => Some(Criterion::MessageId(n as u32)),
            None => None,
        },
        FilterColumn::LogLevel => match parse_unsigned(text, u8::MAX as nat) {
            Some(n) => Some(Criterion::LogLevel(n as u8)),
            None => None,
        },
        FilterColumn::Facility => match parse_unsigned(text, u32::MAX as nat) {
            Some(n) => Some(Criterion::Facility(n as u32)),
            None => None,
        },
        _ => None,
    }
}

/// The predicate of the date filter, given the instant that was read out of
/// its text.
pub open spec fn since_criterion(since: Option<Timestamp>) -> Option<Criterion> {
    match since {
        Some(instant) => Some(Criterion::Since(instant)),
        None => None,
    }
}

/// The instant that the date filter asks for: the one that its text reads as,
/// where the text is not empty and is a date and time.
pub open spec fn wanted_since(text: Seq<char>) -> Option<Timestamp> {
    if text.len() == 0 {
        None
    } else {
        instant_of(parsed_instant(text))
    }
}

/// The predicates in use, in the order in which they are run, given the
/// instant that the date filter asks for. The filter of the identifier
/// column stands for no predicate.
pub open spec fn criteria_with(texts: FilterTexts, since: Option<Timestamp>) -> Seq<Criterion> {
    optional(since_criterion(since))
        + optional(text_criterion(FilterColumn::ComputerName, texts.computer_name))
        + optional(number_criterion(FilterColumn::ProcessId, texts.process_id))
        + optional(text_criterion(FilterColumn::ProcessUser, texts.process_user))
        + optional(text_criterion(FilterColumn::ModuleName, texts.module_name))
        + optional(number_criterion(FilterColumn::MessageId, texts.message_id))
        + optional(number_criterion(FilterColumn::LogLevel, texts.log_level))
        + optional(number_criterion(FilterColumn::Facility, texts.facility))
        + optional(text_criterion(FilterColumn::LogMessage, texts.log_message))
}

/// The predicates in use for the given filter texts.
pub open spec fn active_criteria(texts: FilterTexts) -> Seq<Criterion> {
    criteria_with(texts, wanted_since(texts.date))
}

/// The predicate with its text as a sequence of characters, where there is
/// one.
pub open spec fn criterion_of(predicate: Option<Predicate>) -> Option<Criterion> {
    match predicate {
        Some(p) => Some(p@),
        None => None,
    }
}

/// The predicate of a text filter on the column, where the filter is in use.
pub fn text_predicate(column: FilterColumn, filter: &MyFilter) -> (predicate: Option<Predicate>)
    ensures
        criterion_of(predicate) == text_criterion(column, filter.value@),
{
    match check_str_filter(filter) {
        Some(text) => match column {
            FilterColumn::ComputerName => Some(Predicate::ComputerName(text.to_owned())),
            FilterColumn::ProcessUser => Some(Predicate::ProcessUser(text.to_owned())),
            FilterColumn::ModuleName => Some(Predicate::ModuleName(text.to_owned())),
            FilterColumn::LogMessage => Some(Predicate::LogMessage(text.to_owned())),
            _ => None,
        },
        None => None,
    }
}

/// The predicate of a number filter on the column, where the filter is in
/// use.
pub fn number_predicate(column: FilterColumn, filter: &MyFilter) -> (predicate: Option<Predicate>)
    ensures
        criterion_of(predicate) == number_criterion(column, filter.value@),
{
    match column {
        FilterColumn::ProcessId => match check_num_filter(filter, 0xffff_ffffu64) {
            Some(number) => Some(Predicate::ProcessId(number as u32)),
            None => None,
        },
        FilterColumn::MessageId => match check_num_filter(filter, 0xffff_ffffu64) {
            Some(number) => Some(Predicate::MessageId(number as u32)),
            None => None,
        },
        FilterColumn::LogLevel => match check_num_filter(filter, 0xffu64) {
            Some(number) => Some(Predicate::LogLevel(number as u8)),
            None => None,
        },
        FilterColumn::Facility => match check_num_filter(filter, 0xffff_ffffu64) {
            Some(number) => Some(Predicate::Facility(number as u32)),
            None => None,
        },
        _ => None,
    }
}

/// Puts the predicate, where there is one, at the end of the list.
fn add_predicate(predicates: &mut Vec<Predicate>, predicate: Option<Predicate>)
    ensures
        criteria_of(final(predicates)@) == criteria_of(old(predicates)@) + optional(
            criterion_of(predicate),
        ),
{
    if let Some(p) = predicate {
        predicates.push(p);
    }
    assert(criteria_of(predicates@) =~= criteria_of(old(predicates)@) + optional(
        criterion_of(predicate),
    ));
}

/// The predicates that the filters stand for, given the instant that the
/// date filter asks for.
pub fn predicates_with(filters: &MyFilters, since: Option<Timestamp>) -> (predicates: Vec<
    Predicate,
>)
    ensures
        criteria_of(predicates@) == criteria_with(filters@, since),
{
    let mut predicates: Vec<Predicate> = Vec::new();
    let first = match since {
        Some(instant) => Some(Predicate::Since(instant)),
        None => None,
    };
    add_predicate(&mut predicates, first);
    assert(criteria_of(predicates@) =~= optional(since_criterion(since)));
    add_predicate(&mut predicates, text_predicate(FilterColumn::ComputerName, &filters.computer_name));
    add_predicate(&mut predicates, number_predicate(FilterColumn::ProcessId, &filters.process_id));
    add_predicate(&mut predicates, text_predicate(FilterColumn::ProcessUser, &filters.process_user));
    add_predicate(&mut predicates, text_predicate(FilterColumn::ModuleName, &filters.module_name));
    add_predicate(&mut predicates, number_predicate(FilterColumn::MessageId, &filters.message_id));
    add_predicate(&mut predicates, number_predicate(FilterColumn::LogLevel, &filters.log_level));
    add_predicate(&mut predicates, number_predicate(FilterColumn::Facility, &filters.facility));
    add_predicate(&mut predicates, text_predicate(FilterColumn::LogMessage, &filters.log_message));
    predicates
}

/// The predicates that the filters stand for. The text of the date filter is
/// read as a date and time; where it is none, the date filter is not in use.
pub fn active_predicates(filters: &MyFilters) -> (predicates: Vec<Predicate>)
    ensures
        criteria_of(predicates@) == active_criteria(filters@),
{
    let since = if filters.date.value.as_str().is_empty() {
        None
    } else {
        Timestamp::parse(filters.date.value.as_str())
    };
    predicates_with(filters, since)
}

/// `rows` holds the storage position `position`.
pub open spec fn has_row(rows: Seq<usize>, position: int) -> bool {
    exists|i: int| 0 <= i < rows.len() && rows[i] == position
}

/// `rows` are the storage positions, in rising order, of the records among
/// the first `upto` that satisfy every predicate.
pub open spec fn selects_up_to(
    events: Seq<Record>,
    criteria: Seq<Criterion>,
    rows: Seq<usize>,
    upto: int,
) -> bool {
    &&& forall|i: int, j: int| 0 <= i < j < rows.len() ==> rows[i] < rows[j]
    &&& forall|i: int|
        0 <= i < rows.len() ==> (#[trigger] rows[i]) < upto && admits_all(
            criteria,
            events[rows[i] as int],
        )
    &&& forall|p: int|
        0 <= p < upto && admits_all(criteria, #[trigger] events[p]) ==> has_row(rows, p)
}

/// `rows` is the filtered view of `events` under the predicates: the storage
/// positions of exactly the records that satisfy every predicate, in the
/// order in which the records are stored.
pub open spec fn is_selection(events: Seq<Record>, criteria: Seq<Criterion>, rows: Seq<usize>) -> bool {
    selects_up_to(events, criteria, rows, events.len() as int)
}

/// The filtered view of `events` under the predicates.
pub fn select(events: &Vec<Record>, predicates: &Vec<Predicate>) -> (rows: Vec<usize>)
    ensures
        is_selection(events@, criteria_of(predicates@), rows@),
{
    let mut rows: Vec<usize> = Vec::new();
    let mut p: usize = 0;
    while p < events.len()
        invariant
            p <= events.len(),
            selects_up_to(events@, criteria_of(predicates@), rows@, p as int),
        decreases events.len() - p,
    {
        let ghost before = rows@;
        if passes(&events[p], predicates) {
            rows.push(p);
            proof {
                assert(rows@[before.len() as int] == p);
                assert forall|q: int|
                    0 <= q < p + 1 && admits_all(
                        criteria_of(predicates@),
                        #[trigger] events@[q],
                    ) implies has_row(rows@, q) by {
                    if q < p {
                        assert(has_row(before, q));
                        let at = choose|at: int| 0 <= at < before.len() && before[at] == q;
                        assert(rows@[at] == q);
                    }
                }
            }
        } else {
            proof {
                assert forall|q: int|
                    0 <= q < p + 1 && admits_all(
                        criteria_of(predicates@),
                        #[trigger] events@[q],
                    ) implies has_row(rows@, q) by {
                    assert(q < p);
                }
            }
        }
        p = p + 1;
    }
    rows
}

} // verus!
