//! The small choices of the rule editor's trigger, condition and action
//! forms: each option's picker value, and the option a value names.
use vstd::prelude::*;
use crate::text::str_eq;

verus! {

/// A comparison of a condition.
#[derive(PartialEq, Eq, Structural, Clone, Copy, Debug)]
pub enum CompareOp {
    Eq,
    Ne,
    Gt,
    Gte,
    Lt,
    Lte,
}

pub open spec fn compare_op_text(x: CompareOp) -> Seq<char> {
    match x {
        CompareOp::Eq => "Eq"@,
        CompareOp::Ne => "Ne"@,
        CompareOp::Gt => "Gt"@,
        CompareOp::Gte => "Gte"@,
        CompareOp::Lt => "Lt"@,
        CompareOp::Lte => "Lte"@,
    }
}

/// The picker value of a compare op.
pub fn compare_op_name(x: CompareOp) -> (r: &'static str)
    ensures
        r@ == compare_op_text(x),
{
    match x {
        CompareOp::Eq => "Eq",
        CompareOp::Ne => "Ne",
        CompareOp::Gt => "Gt",
        CompareOp::Gte => "Gte",
        CompareOp::Lt => "Lt",
        CompareOp::Lte => "Lte",
    }
}

/// The compare op a picker value names; anything else is `Eq`.
pub open spec fn compare_op_of(t: Seq<char>) -> CompareOp {
    if t == "Ne"@ {
        CompareOp::Ne
    } else if t == "Gt"@ {
        CompareOp::Gt
    } else if t == "Gte"@ {
        CompareOp::Gte
    } else if t == "Lt"@ {
        CompareOp::Lt
    } else if t == "Lte"@ {
        CompareOp::Lte
    } else {
        CompareOp::Eq
    }
}

pub fn parse_compare_op(t: &str) -> (r: CompareOp)
    ensures
        r == compare_op_of(t@),
{
    if str_eq(t, "Ne") {
        CompareOp::Ne
    } else if str_eq(t, "Gt") {
        CompareOp::Gt
    } else if str_eq(t, "Gte") {
        CompareOp::Gte
    } else if str_eq(t, "Lt") {
        CompareOp::Lt
    } else if str_eq(t, "Lte") {
        CompareOp::Lte
    } else {
        CompareOp::Eq
    }
}

/// Picking a compare op by its own value gives it back.
pub proof fn law_compare_op_roundtrip(x: CompareOp)
    ensures
        compare_op_of(compare_op_text(x)) == x,
{
    reveal_strlit("Eq");
    reveal_strlit("Ne");
    reveal_strlit("Gt");
    reveal_strlit("Gte");
    reveal_strlit("Lt");
    reveal_strlit("Lte");
    match x {
        CompareOp::Eq => {
            assert("Eq"@[0] != "Ne"@[0]);
            assert("Eq"@[0] != "Gt"@[0]);
            assert("Eq"@.len() != "Gte"@.len());
            assert("Eq"@[0] != "Lt"@[0]);
            assert("Eq"@.len() != "Lte"@.len());
        },
        CompareOp::Ne => {
        },
        CompareOp::Gt => {
            assert("Gt"@[0] != "Ne"@[0]);
        },
        CompareOp::Gte => {
            assert("Gte"@.len() != "Ne"@.len());
            assert("Gte"@.len() != "Gt"@.len());
        },
        CompareOp::Lt => {
            assert("Lt"@[0] != "Ne"@[0]);
            assert("Lt"@[0] != "Gt"@[0]);
            assert("Lt"@.len() != "Gte"@.len());
        },
        CompareOp::Lte => {
            assert("Lte"@.len() != "Ne"@.len());
            assert("Lte"@.len() != "Gt"@.len());
            assert("Lte"@[0] != "Gte"@[0]);
            assert("Lte"@.len() != "Lt"@.len());
        },
    }
}

/// How a threshold trigger compares.
#[derive(PartialEq, Eq, Structural, Clone, Copy, Debug)]
pub enum ThresholdOp {
    CrossesAbove,
    CrossesBelow,
    Above,
    Below,
}

pub open spec fn threshold_op_text(x: ThresholdOp) -> Seq<char> {
    match x {
        ThresholdOp::CrossesAbove => "CrossesAbove"@,
        ThresholdOp::CrossesBelow => "CrossesBelow"@,
        ThresholdOp::Above => "Above"@,
        ThresholdOp::Below => "Below"@,
    }
}

/// The picker value of a threshold op.
pub fn threshold_op_name(x: ThresholdOp) -> (r: &'static str)
    ensures
        r@ == threshold_op_text(x),
{
    match x {
        ThresholdOp::CrossesAbove => "CrossesAbove",
        ThresholdOp::CrossesBelow => "CrossesBelow",
        ThresholdOp::Above => "Above",
        ThresholdOp::Below => "Below",
    }
}

/// The threshold op a picker value names; anything else is `CrossesAbove`.
pub open spec fn threshold_op_of(t: Seq<char>) -> ThresholdOp {
    if t == "CrossesBelow"@ {
        ThresholdOp::CrossesBelow
    } else if t == "Above"@ {
        ThresholdOp::Above
    } else if t == "Below"@ {
        ThresholdOp::Below
    } else {
        ThresholdOp::CrossesAbove
    }
}

pub fn parse_threshold_op(t: &str) -> (r: ThresholdOp)
    ensures
        r == threshold_op_of(t@),
{
    if str_eq(t, "CrossesBelow") {
        ThresholdOp::CrossesBelow
    } else if str_eq(t, "Above") {
        ThresholdOp::Above
    } else if str_eq(t, "Below") {
        ThresholdOp::Below
    } else {
        ThresholdOp::CrossesAbove
    }
}

/// Picking a threshold op by its own value gives it back.
pub proof fn law_threshold_op_roundtrip(x: ThresholdOp)
    ensures
        threshold_op_of(threshold_op_text(x)) == x,
{
    reveal_strlit("CrossesAbove");
    reveal_strlit("CrossesBelow");
    reveal_strlit("Above");
    reveal_strlit("Below");
    match x {
        ThresholdOp::CrossesAbove => {
            assert("CrossesAbove"@[7] != "CrossesBelow"@[7]);
            assert("CrossesAbove"@.len() != "Above"@.len());
            assert("CrossesAbove"@.len() != "Below"@.len());
        },
        ThresholdOp::CrossesBelow => {
        },
        ThresholdOp::Above => {
            assert("Above"@.len() != "CrossesBelow"@.len());
        },
        ThresholdOp::Below => {
            assert("Below"@.len() != "CrossesBelow"@.len());
            assert("Below"@[0] != "Above"@[0]);
        },
    }
}

/// A solar event.
#[derive(PartialEq, Eq, Structural, Clone, Copy, Debug)]
pub enum SunEventType {
    Sunrise,
    Sunset,
    SolarNoon,
    CivilDawn,
    CivilDusk,
}

pub open spec fn sun_event_type_text(x: SunEventType) -> Seq<char> {
    match x {
        SunEventType::Sunrise => "Sunrise"@,
        SunEventType::Sunset => "Sunset"@,
        SunEventType::SolarNoon => "SolarNoon"@,
        SunEventType::CivilDawn => "CivilDawn"@,
        SunEventType::CivilDusk => "CivilDusk"@,
    }
}

/// The picker value of a sun event type.
pub fn sun_event_type_name(x: SunEventType) -> (r: &'static str)
    ensures
        r@ == sun_event_type_text(x),
{
    match x {
        SunEventType::Sunrise => "Sunrise",
        SunEventType::Sunset => "Sunset",
        SunEventType::SolarNoon => "SolarNoon",
        SunEventType::CivilDawn => "CivilDawn",
        SunEventType::CivilDusk => "CivilDusk",
    }
}

/// The sun event type a picker value names; anything else is `Sunset`.
pub open spec fn sun_event_type_of(t: Seq<char>) -> SunEventType {
    if t == "Sunrise"@ {
        SunEventType::Sunrise
    } else if t == "SolarNoon"@ {
        SunEventType::SolarNoon
    } else if t == "CivilDawn"@ {
        SunEventType::CivilDawn
    } else if t == "CivilDusk"@ {
        SunEventType::CivilDusk
    } else {
        SunEventType::Sunset
    }
}

pub fn parse_sun_event_type(t: &str) -> (r: SunEventType)
    ensures
        r == sun_event_type_of(t@),
{
    if str_eq(t, "Sunrise") {
        SunEventType::Sunrise
    } else if str_eq(t, "SolarNoon") {
        SunEventType::SolarNoon
    } else if str_eq(t, "CivilDawn") {
        SunEventType::CivilDawn
    } else if str_eq(t, "CivilDusk") {
        SunEventType::CivilDusk
    } else {
        SunEventType::Sunset
    }
}

/// Picking a sun event type by its own value gives it back.
pub proof fn law_sun_event_type_roundtrip(x: SunEventType)
    ensures
        sun_event_type_of(sun_event_type_text(x)) == x,
{
    reveal_strlit("Sunrise");
    reveal_strlit("Sunset");
    reveal_strlit("SolarNoon");
    reveal_strlit("CivilDawn");
    reveal_strlit("CivilDusk");
    match x {
        SunEventType::Sunrise => {
        },
        SunEventType::Sunset => {
            assert("Sunset"@.len() != "Sunrise"@.len());
            assert("Sunset"@.len() != "SolarNoon"@.len());
            assert("Sunset"@.len() != "CivilDawn"@.len());
            assert("Sunset"@.len() != "CivilDusk"@.len());
        },
        SunEventType::SolarNoon => {
            assert("SolarNoon"@.len() != "Sunrise"@.len());
        },
        SunEventType::CivilDawn => {
            assert("CivilDawn"@.len() != "Sunrise"@.len());
            assert("CivilDawn"@[0] != "SolarNoon"@[0]);
        },
        SunEventType::CivilDusk => {
            assert("CivilDusk"@.len() != "Sunrise"@.len());
            assert("CivilDusk"@[0] != "SolarNoon"@[0]);
            assert("CivilDusk"@[6] != "CivilDawn"@[6]);
        },
    }
}

/// What a button did.
#[derive(PartialEq, Eq, Structural, Clone, Copy, Debug)]
pub enum ButtonEventType {
    Pushed,
    Held,
    DoubleTapped,
    Released,
}

pub open spec fn button_event_type_text(x: ButtonEventType) -> Seq<char> {
    match x {
        ButtonEventType::Pushed => "Pushed"@,
        ButtonEventType::Held => "Held"@,
        ButtonEventType::DoubleTapped => "DoubleTapped"@,
        ButtonEventType::Released => "Released"@,
    }
}

/// The picker value of a button event type.
pub fn button_event_type_name(x: ButtonEventType) -> (r: &'static str)
    ensures
        r@ == button_event_type_text(x),
{
    match x {
        ButtonEventType::Pushed => "Pushed",
        ButtonEventType::Held => "Held",
        ButtonEventType::DoubleTapped => "DoubleTapped",
        ButtonEventType::Released => "Released",
    }
}

/// The button event type a picker value names; anything else is `Pushed`.
pub open spec fn button_event_type_of(t: Seq<char>) -> ButtonEventType {
    if t == "Held"@ {
        ButtonEventType::Held
    } else if t == "DoubleTapped"@ {
        ButtonEventType::DoubleTapped
    } else if t == "Released"@ {
        ButtonEventType::Released
    } else {
        ButtonEventType::Pushed
    }
}

pub fn parse_button_event_type(t: &str) -> (r: ButtonEventType)
    ensures
        r == button_event_type_of(t@),
{
    if str_eq(t, "Held") {
        ButtonEventType::Held
    } else if str_eq(t, "DoubleTapped") {
        ButtonEventType::DoubleTapped
    } else if str_eq(t, "Released") {
        ButtonEventType::Released
    } else {
        ButtonEventType::Pushed
    }
}

/// Picking a button event type by its own value gives it back.
pub proof fn law_button_event_type_roundtrip(x: ButtonEventType)
    ensures
        button_event_type_of(button_event_type_text(x)) == x,
{
    reveal_strlit("Pushed");
    reveal_strlit("Held");
    reveal_strlit("DoubleTapped");
    reveal_strlit("Released");
    match x {
        ButtonEventType::Pushed => {
            assert("Pushed"@.len() != "Held"@.len());
            assert("Pushed"@.len() != "DoubleTapped"@.len());
            assert("Pushed"@.len() != "Released"@.len());
        },
        ButtonEventType::Held => {
        },
        ButtonEventType::DoubleTapped => {
            assert("DoubleTapped"@.len() != "Held"@.len());
        },
        ButtonEventType::Released => {
            assert("Released"@.len() != "Held"@.len());
            assert("Released"@.len() != "DoubleTapped"@.len());
        },
    }
}

/// The unit of a periodic trigger.
#[derive(PartialEq, Eq, Structural, Clone, Copy, Debug)]
pub enum PeriodicUnit {
    Minutes,
    Hours,
    Days,
    Weeks,
}

pub open spec fn periodic_unit_text(x: PeriodicUnit) -> Seq<char> {
    match x {
        PeriodicUnit::Minutes => "Minutes"@,
        PeriodicUnit::Hours => "Hours"@,
        PeriodicUnit::Days => "Days"@,
        PeriodicUnit::Weeks => "Weeks"@,
    }
}

/// The picker value of a periodic unit.
pub fn periodic_unit_name(x: PeriodicUnit) -> (r: &'static str)
    ensures
        r@ == periodic_unit_text(x),
{
    match x {
        PeriodicUnit::Minutes => "Minutes",
        PeriodicUnit::Hours => "Hours",
        PeriodicUnit::Days => "Days",
        PeriodicUnit::Weeks => "Weeks",
    }
}

/// The periodic unit a picker value names; anything else is `Minutes`.
pub open spec fn periodic_unit_of(t: Seq<char>) -> PeriodicUnit {
    if t == "Hours"@ {
        PeriodicUnit::Hours
    } else if t == "Days"@ {
        PeriodicUnit::Days
    } else if t == "Weeks"@ {
        PeriodicUnit::Weeks
    } else {
        PeriodicUnit::Minutes
    }
}

pub fn parse_periodic_unit(t: &str) -> (r: PeriodicUnit)
    ensures
        r == periodic_unit_of(t@),
{
    if str_eq(t, "Hours") {
        PeriodicUnit::Hours
    } else if str_eq(t, "Days") {
        PeriodicUnit::Days
    } else if str_eq(t, "Weeks") {
        PeriodicUnit::Weeks
    } else {
        PeriodicUnit::Minutes
    }
}

/// Picking a periodic unit by its own value gives it back.
pub proof fn law_periodic_unit_roundtrip(x: PeriodicUnit)
    ensures
        periodic_unit_of(periodic_unit_text(x)) == x,
{
    reveal_strlit("Minutes");
    reveal_strlit("Hours");
    reveal_strlit("Days");
    reveal_strlit("Weeks");
    match x {
        PeriodicUnit::Minutes => {
            assert("Minutes"@.len() != "Hours"@.len());
            assert("Minutes"@.len() != "Days"@.len());
            assert("Minutes"@.len() != "Weeks"@.len());
        },
        PeriodicUnit::Hours => {
        },
        PeriodicUnit::Days => {
            assert("Days"@.len() != "Hours"@.len());
        },
        PeriodicUnit::Weeks => {
            assert("Weeks"@[0] != "Hours"@[0]);
            assert("Weeks"@.len() != "Days"@.len());
        },
    }
}

/// Where a device change came from.
#[derive(PartialEq, Eq, Structural, Clone, Copy, Debug)]
pub enum ChangeKind {
    Homecore,
    Physical,
    External,
    Unknown,
}

pub open spec fn change_kind_text(x: Option<ChangeKind>) -> Seq<char> {
    match x {
        None => "any"@,
        Some(ChangeKind::Homecore) => "homecore"@,
        Some(ChangeKind::Physical) => "physical"@,
        Some(ChangeKind::External) => "external"@,
        Some(ChangeKind::Unknown) => "unknown"@,
    }
}

/// The picker value of an optional change kind.
pub fn change_kind_name(x: Option<ChangeKind>) -> (r: &'static str)
    ensures
        r@ == change_kind_text(x),
{
    match x {
        None => "any",
        Some(ChangeKind::Homecore) => "homecore",
        Some(ChangeKind::Physical) => "physical",
        Some(ChangeKind::External) => "external",
        Some(ChangeKind::Unknown) => "unknown",
    }
}

/// The change kind a picker value names; anything else is none.
pub open spec fn change_kind_of(t: Seq<char>) -> Option<ChangeKind> {
    if t == "homecore"@ {
        Some(ChangeKind::Homecore)
    } else if t == "physical"@ {
        Some(ChangeKind::Physical)
    } else if t == "external"@ {
        Some(ChangeKind::External)
    } else if t == "unknown"@ {
        Some(ChangeKind::Unknown)
    } else {
        None
    }
}

pub fn parse_change_kind(t: &str) -> (r: Option<ChangeKind>)
    ensures
        r == change_kind_of(t@),
{
    if str_eq(t, "homecore") {
        Some(ChangeKind::Homecore)
    } else if str_eq(t, "physical") {
        Some(ChangeKind::Physical)
    } else if str_eq(t, "external") {
        Some(ChangeKind::External)
    } else if str_eq(t, "unknown") {
        Some(ChangeKind::Unknown)
    } else {
        None
    }
}

/// The level of a logged message.
#[derive(PartialEq, Eq, Structural, Clone, Copy, Debug)]
pub enum LogLevel {
    Debug,
    Warn,
    Error,
}

pub open spec fn log_level_text(x: Option<LogLevel>) -> Seq<char> {
    match x {
        None => ""@,
        Some(LogLevel::Debug) => "Debug"@,
        Some(LogLevel::Warn) => "Warn"@,
        Some(LogLevel::Error) => "Error"@,
    }
}

/// The picker value of an optional log level.
pub fn log_level_name(x: Option<LogLevel>) -> (r: &'static str)
    ensures
        r@ == log_level_text(x),
{
    match x {
        None => "",
        Some(LogLevel::Debug) => "Debug",
        Some(LogLevel::Warn) => "Warn",
        Some(LogLevel::Error) => "Error",
    }
}

/// The log level a picker value names; anything else is none.
pub open spec fn log_level_of(t: Seq<char>) -> Option<LogLevel> {
    if t == "Debug"@ {
        Some(LogLevel::Debug)
    } else if t == "Warn"@ {
        Some(LogLevel::Warn)
    } else if t == "Error"@ {
        Some(LogLevel::Error)
    } else {
        None
    }
}

pub fn parse_log_level(t: &str) -> (r: Option<LogLevel>)
    ensures
        r == log_level_of(t@),
{
    if str_eq(t, "Debug") {
        Some(LogLevel::Debug)
    } else if str_eq(t, "Warn") {
        Some(LogLevel::Warn)
    } else if str_eq(t, "Error") {
        Some(LogLevel::Error)
    } else {
        None
    }
}

/// How a variable is changed.
#[derive(PartialEq, Eq, Structural, Clone, Copy, Debug)]
pub enum VariableOp {
    Assign,
    Add,
    Subtract,
    Multiply,
    Divide,
    Toggle,
}

pub open spec fn variable_op_text(x: Option<VariableOp>) -> Seq<char> {
    match x {
        None => "set"@,
        Some(VariableOp::Assign) => "set"@,
        Some(VariableOp::Add) => "add"@,
        Some(VariableOp::Subtract) => "subtract"@,
        Some(VariableOp::Multiply) => "multiply"@,
        Some(VariableOp::Divide) => "divide"@,
        Some(VariableOp::Toggle) => "toggle"@,
    }
}

/// The picker value of an optional variable op.
pub fn variable_op_name(x: Option<VariableOp>) -> (r: &'static str)
    ensures
        r@ == variable_op_text(x),
{
    match x {
        None => "set",
        Some(VariableOp::Assign) => "set",
        Some(VariableOp::Add) => "add",
        Some(VariableOp::Subtract) => "subtract",
        Some(VariableOp::Multiply) => "multiply",
        Some(VariableOp::Divide) => "divide",
        Some(VariableOp::Toggle) => "toggle",
    }
}

/// The variable op a picker value names; anything else is none.
pub open spec fn variable_op_of(t: Seq<char>) -> Option<VariableOp> {
    if t == "add"@ {
        Some(VariableOp::Add)
    } else if t == "subtract"@ {
        Some(VariableOp::Subtract)
    } else if t == "multiply"@ {
        Some(VariableOp::Multiply)
    } else if t == "divide"@ {
        Some(VariableOp::Divide)
    } else if t == "toggle"@ {
        Some(VariableOp::Toggle)
    } else {
        None
    }
}

pub fn parse_variable_op(t: &str) -> (r: Option<VariableOp>)
    ensures
        r == variable_op_of(t@),
{
    if str_eq(t, "add") {
        Some(VariableOp::Add)
    } else if str_eq(t, "subtract") {
        Some(VariableOp::Subtract)
    } else if str_eq(t, "multiply") {
        Some(VariableOp::Multiply)
    } else if str_eq(t, "divide") {
        Some(VariableOp::Divide)
    } else if str_eq(t, "toggle") {
        Some(VariableOp::Toggle)
    } else {
        None
    }
}

/// Picking an optional change kind by its own value gives it back.
pub proof fn law_change_kind_roundtrip(x: Option<ChangeKind>)
    ensures
        change_kind_of(change_kind_text(x)) == x,
{
    reveal_strlit("any");
    reveal_strlit("external");
    reveal_strlit("homecore");
    reveal_strlit("physical");
    reveal_strlit("unknown");
    match x {
        None => {
            assert("any"@.len() != "homecore"@.len());
            assert("any"@.len() != "physical"@.len());
            assert("any"@.len() != "external"@.len());
            assert("any"@.len() != "unknown"@.len());
        },
        Some(ChangeKind::Homecore) => {
        },
        Some(ChangeKind::Physical) => {
            assert("physical"@[0] != "homecore"@[0]);
        },
        Some(ChangeKind::External) => {
            assert("external"@[0] != "homecore"@[0]);
            assert("external"@[0] != "physical"@[0]);
        },
        Some(ChangeKind::Unknown) => {
            assert("unknown"@.len() != "homecore"@.len());
            assert("unknown"@.len() != "physical"@.len());
            assert("unknown"@.len() != "external"@.len());
        },
    }
}

/// Picking an optional log level by its own value gives it back.
pub proof fn law_log_level_roundtrip(x: Option<LogLevel>)
    ensures
        log_level_of(log_level_text(x)) == x,
{
    reveal_strlit("");
    reveal_strlit("Debug");
    reveal_strlit("Error");
    reveal_strlit("Warn");
    match x {
        None => {
            assert(""@.len() != "Debug"@.len());
            assert(""@.len() != "Warn"@.len());
            assert(""@.len() != "Error"@.len());
        },
        Some(LogLevel::Debug) => {
        },
        Some(LogLevel::Warn) => {
            assert("Warn"@.len() != "Debug"@.len());
        },
        Some(LogLevel::Error) => {
            assert("Error"@[0] != "Debug"@[0]);
            assert("Error"@.len() != "Warn"@.len());
        },
    }
}

/// Picking an optional variable op by its own value gives it back; `Assign` reads back as none, which means the same.
pub proof fn law_variable_op_roundtrip(x: Option<VariableOp>)
    requires
        x != Some(VariableOp::Assign),
    ensures
        variable_op_of(variable_op_text(x)) == x,
{
    reveal_strlit("add");
    reveal_strlit("divide");
    reveal_strlit("multiply");
    reveal_strlit("set");
    reveal_strlit("subtract");
    reveal_strlit("toggle");
    match x {
        None => {
            assert("set"@[0] != "add"@[0]);
            assert("set"@.len() != "subtract"@.len());
            assert("set"@.len() != "multiply"@.len());
            assert("set"@.len() != "divide"@.len());
            assert("set"@.len() != "toggle"@.len());
        },
        Some(VariableOp::Assign) => {
        },
        Some(VariableOp::Add) => {
        },
        Some(VariableOp::Subtract) => {
            assert("subtract"@.len() != "add"@.len());
        },
        Some(VariableOp::Multiply) => {
            assert("multiply"@.len() != "add"@.len());
            assert("multiply"@[0] != "subtract"@[0]);
        },
        Some(VariableOp::Divide) => {
            assert("divide"@.len() != "add"@.len());
            assert("divide"@.len() != "subtract"@.len());
            assert("divide"@.len() != "multiply"@.len());
        },
        Some(VariableOp::Toggle) => {
            assert("toggle"@.len() != "add"@.len());
            assert("toggle"@.len() != "subtract"@.len());
            assert("toggle"@.len() != "multiply"@.len());
            assert("toggle"@[0] != "divide"@[0]);
        },
    }
}

} // verus!
