//! The rules that guard what is stored: error codes, the fixed local identities, and the
//! checks that values pass before a write.
use vstd::prelude::*;

use vstd::utf8::encode_utf8;

use crate::domain::{
    message_transition, ConversationMessage, MessageAuthor, MessageStatus, MAX_KEEP_ALIVE_MINUTES,
    MAX_USER_MESSAGE_BYTES,
};
use crate::text::{
    all_chars_in_class, all_in_class, byte_len, has_folded_prefix, has_prefix, starts_with_folded,
    starts_with_text, text_equal, trim_text, trimmed, CharClass,
};

verus! {

pub const OWNER_ID: &'static str = "usr_owner_local";
pub const ASTRA_ID: &'static str = "agt_astra_provisional";
pub const LUMA_ID: &'static str = "agt_luma_provisional";

/// Why a read or write of the store failed.
#[derive(Debug, Clone, Copy, PartialEq, Eq)]
pub enum DatabaseError {
    Unavailable,
    NotFound,
    OwnershipMismatch,
    InvalidValue,
    InvalidTransition,
    Cognitive(&'static str),
}

/// The code reported to the interface for an error.
pub open spec fn error_code(e: DatabaseError) -> Seq<char> {
    match e {
        DatabaseError::Unavailable => "persistence_failed"@,
        DatabaseError::NotFound => "event_not_found"@,
        DatabaseError::OwnershipMismatch => "ownership_mismatch"@,
        DatabaseError::InvalidValue => "invalid_value"@,
        DatabaseError::InvalidTransition => "operation_unavailable"@,
        DatabaseError::Cognitive(code) => code@,
    }
}

/// The human-readable description of an error.
pub open spec fn error_message(e: DatabaseError) -> Seq<char> {
    match e {
        DatabaseError::Unavailable => "database unavailable"@,
        DatabaseError::NotFound => "record not found"@,
        DatabaseError::OwnershipMismatch => "record does not belong to agent"@,
        DatabaseError::InvalidValue => "invalid value"@,
        DatabaseError::InvalidTransition => "invalid state transition"@,
        DatabaseError::Cognitive(code) => "cognitive error: "@ + code@,
    }
}

impl DatabaseError {
    pub fn code(&self) -> (r: &'static str)
        ensures
            r@ == error_code(*self),
    {
        match self {
            DatabaseError::Unavailable => "persistence_failed",
            DatabaseError::NotFound => "event_not_found",
            DatabaseError::OwnershipMismatch => "ownership_mismatch",
            DatabaseError::InvalidValue => "invalid_value",
            DatabaseError::InvalidTransition => "operation_unavailable",
            DatabaseError::Cognitive(code) => code,
        }
    }

    pub fn message(&self) -> (r: String)
        ensures
            r@ == error_message(*self),
    {
        match self {
            DatabaseError::Unavailable => "database unavailable".to_string(),
            DatabaseError::NotFound => "record not found".to_string(),
            DatabaseError::OwnershipMismatch => "record does not belong to agent".to_string(),
            DatabaseError::InvalidValue => "invalid value".to_string(),
            DatabaseError::InvalidTransition => "invalid state transition".to_string(),
            DatabaseError::Cognitive(code) => "cognitive error: ".to_string().concat(code),
        }
    }
}

/// An agent's chat settings.
#[derive(Debug, Clone, PartialEq, Eq)]
pub struct PhaseOneSettings {
    pub selected_model_ref: Option<String>,
    pub keep_alive_minutes: u32,
}

/// The records a generation attempt creates.
#[derive(Debug, Clone, PartialEq, Eq)]
pub struct MessageAttempt {
    pub request_id: String,
    pub user_message_id: String,
    pub assistant_message_id: String,
    pub branch_id: String,
}

/// A message given to the model as context.
#[derive(Debug, Clone, PartialEq, Eq)]
pub struct ContextMessage {
    pub author: MessageAuthor,
    pub content: String,
}

/// A model reference: `ollama:` followed by a non-empty id of at most 200 bytes made of ASCII
/// letters, digits and `.:_/-`.
pub open spec fn model_ref_valid(s: Seq<char>) -> bool {
    &&& has_prefix(s, "ollama:"@)
    &&& s.len() > "ollama:"@.len()
    &&& byte_len(s.subrange("ollama:"@.len() as int, s.len() as int)) <= 200
    &&& all_in_class(s.subrange("ollama:"@.len() as int, s.len() as int), CharClass::ModelId)
}

pub fn valid_model_ref(value: &str) -> (r: bool)
    ensures
        r == model_ref_valid(value@),
{
    proof {
        reveal_strlit("ollama:");
    }
    if !starts_with_text(value, "ollama:") {
        return false;
    }
    let n = value.unicode_len();
    let model_id = value.substring_char(7, n);
    n > 7 && model_id.len() <= 200 && all_chars_in_class(model_id, CharClass::ModelId)
}

/// The content and model of a new user message are acceptable.
pub open spec fn message_input_valid(content: Seq<char>, model_ref: Seq<char>) -> bool {
    content.len() > 0 && byte_len(content) <= MAX_USER_MESSAGE_BYTES && model_ref_valid(model_ref)
}

/// The check made before a message attempt (new or edited) is written: `InvalidValue` unless
/// the content is non-empty, within the size limit, and the model reference is valid.
pub fn check_message_input(content: &str, model_ref: &str) -> (r: Result<(), DatabaseError>)
    ensures
        r is Ok <==> message_input_valid(content@, model_ref@),
        r is Err ==> r == Err::<(), DatabaseError>(DatabaseError::InvalidValue),
{
    if content.is_empty() || content.len() > MAX_USER_MESSAGE_BYTES || !valid_model_ref(model_ref) {
        proof {
            if content.is_empty() {
                assert(content@.len() == 0) by {
                    if content@.len() > 0 {
                        vstd::utf8::encode_utf8_first_scalar(content@);
                    }
                }
            }
        }
        Err(DatabaseError::InvalidValue)
    } else {
        proof {
            if content@.len() == 0 {
                assert(content@ =~= Seq::<char>::empty());
            }
        }
        Ok(())
    }
}

pub open spec fn is_terminal(status: MessageStatus) -> bool {
    status == MessageStatus::Complete || status == MessageStatus::Failed || status
        == MessageStatus::Cancelled
}

/// A generation may only be finished with a terminal status.
pub fn check_finish_status(status: MessageStatus) -> (r: Result<(), DatabaseError>)
    ensures
        r is Ok <==> is_terminal(status),
        r is Err ==> r == Err::<(), DatabaseError>(DatabaseError::InvalidTransition),
{
    match status {
        MessageStatus::Complete | MessageStatus::Failed | MessageStatus::Cancelled => Ok(()),
        _ => Err(DatabaseError::InvalidTransition),
    }
}

/// The decision of a stored message's status change, from the stored status name: the stored
/// name must be a status (`InvalidValue`), and the move must be allowed (`InvalidTransition`).
pub fn check_message_transition(stored: &str, next: MessageStatus) -> (r: Result<
    (),
    DatabaseError,
>)
    ensures
        (forall|s: MessageStatus| s.spec_name() != stored@) ==> r == Err::<(), DatabaseError>(
            DatabaseError::InvalidValue,
        ),
        forall|s: MessageStatus|
            s.spec_name() == stored@ ==> (r is Ok <==> message_transition(s, next)),
        forall|s: MessageStatus|
            s.spec_name() == stored@ && !message_transition(s, next) ==> r == Err::<
                (),
                DatabaseError,
            >(DatabaseError::InvalidTransition),
{
    match MessageStatus::parse(stored) {
        Err(()) => Err(DatabaseError::InvalidValue),
        Ok(current) => {
            proof {
                assert forall|s: MessageStatus| s.spec_name() == stored@ implies s == current by {
                    crate::domain::law_message_status_names_round_trip(s, current);
                }
            }
            if crate::domain::can_transition_message(current, next) {
                Ok(())
            } else {
                Err(DatabaseError::InvalidTransition)
            }
        },
    }
}

/// The stored value of the safe-mode setting.
pub fn safe_mode_setting(enabled: bool) -> (r: &'static str)
    ensures
        enabled ==> r@ == "true"@,
        !enabled ==> r@ == "false"@,
{
    if enabled {
        "true"
    } else {
        "false"
    }
}

pub open spec fn is_digit_byte(b: u8) -> bool {
    48 <= b && b <= 57
}

pub open spec fn all_digit_bytes(s: Seq<u8>) -> bool {
    forall|i: int| 0 <= i < s.len() ==> #[trigger] is_digit_byte(s[i])
}

/// The number written by a run of ASCII digits.
pub open spec fn digits_value(s: Seq<u8>) -> nat
    decreases s.len(),
{
    if s.len() == 0 {
        0
    } else {
        digits_value(s.drop_last()) * 10 + (s.last() - 48) as nat
    }
}

/// What `u32::from_str` accepts in a field of at most four bytes: one or more ASCII digits,
/// optionally after a single `+`.
pub open spec fn unsigned_field_parses(s: Seq<u8>) -> bool {
    ||| (s.len() > 0 && all_digit_bytes(s))
    ||| (s.len() > 1 && s[0] == 43 && all_digit_bytes(s.drop_first()))
}

/// The number that `u32::from_str` reads from such a field.
pub open spec fn unsigned_field_value(s: Seq<u8>) -> nat {
    if s.len() > 0 && s[0] == 43 {
        digits_value(s.drop_first())
    } else {
        digits_value(s)
    }
}

pub open spec fn is_leap_year(year: nat) -> bool {
    year % 4 == 0 && (year % 100 != 0 || year % 400 == 0)
}

pub open spec fn days_in_month(year: nat, month: nat) -> nat {
    if month == 2 {
        if is_leap_year(year) {
            29
        } else {
            28
        }
    } else if month == 4 || month == 6 || month == 9 || month == 11 {
        30
    } else {
        31
    }
}

/// `YYYY-MM-DD` naming a real day of the proleptic Gregorian calendar, year not zero.
pub open spec fn calendar_date_valid(b: Seq<u8>) -> bool {
    &&& b.len() == 10
    &&& b[4] == 45
    &&& b[7] == 45
    &&& unsigned_field_parses(b.subrange(0, 4))
    &&& unsigned_field_parses(b.subrange(5, 7))
    &&& unsigned_field_parses(b.subrange(8, 10))
    &&& {
        let year = unsigned_field_value(b.subrange(0, 4));
        let month = unsigned_field_value(b.subrange(5, 7));
        let day = unsigned_field_value(b.subrange(8, 10));
        &&& year != 0
        &&& 1 <= month <= 12
        &&& day != 0
        &&& day <= days_in_month(year, month)
    }
}

/// Reads the unsigned number in `bytes[start..end]`, a field of at most four bytes.
fn parse_field(bytes: &[u8], start: usize, end: usize) -> (r: Option<u32>)
    requires
        start <= end <= bytes@.len(),
        end - start <= 4,
    ensures
        r is Some <==> unsigned_field_parses(bytes@.subrange(start as int, end as int)),
        r is Some ==> r->0 as nat == unsigned_field_value(
            bytes@.subrange(start as int, end as int),
        ),
{
    let ghost field = bytes@.subrange(start as int, end as int);
    let mut first = start;
    if start < end && bytes[start] == 43 {
        first = start + 1;
    }
    if first >= end {
        proof {
            if start < end {
                assert(field[0] == 43);
                assert(!is_digit_byte(field[0]));
            }
        }
        return None;
    }
    let ghost digits = bytes@.subrange(first as int, end as int);
    proof {
        if first > start {
            assert(field.drop_first() =~= digits);
        } else {
            assert(field =~= digits);
        }
    }
    let mut acc: u32 = 0;
    let mut i: usize = first;
    while i < end
        invariant
            start <= first < end <= bytes@.len(),
            end - start <= 4,
            first <= i <= end,
            field == bytes@.subrange(start as int, end as int),
            digits == bytes@.subrange(first as int, end as int),
            first > start ==> first == start + 1 && field[0] == 43 && field.drop_first() == digits,
            first == start ==> field == digits && field[0] != 43,
            acc as nat == digits_value(bytes@.subrange(first as int, i as int)),
            all_digit_bytes(bytes@.subrange(first as int, i as int)),
            acc <= 9999,
            i - first < 4 ==> acc <= 999,
            i - first < 3 ==> acc <= 99,
            i - first < 2 ==> acc <= 9,
            i - first < 1 ==> acc == 0,
        decreases end - i,
    {
        let b = bytes[i];
        if b < 48 || b > 57 {
            proof {
                assert(digits[i - first] == b);
                assert(!is_digit_byte(digits[i - first]));
                if first > start {
                    assert(!is_digit_byte(field[0]));
                }
            }
            return None;
        }
        proof {
            let next = bytes@.subrange(first as int, i + 1);
            assert(next.drop_last() =~= bytes@.subrange(first as int, i as int));
            assert(next.last() == b);
            assert forall|k: int| 0 <= k < next.len() implies #[trigger] is_digit_byte(next[k]) by {
                if k < next.len() - 1 {
                    assert(next[k] == bytes@.subrange(first as int, i as int)[k]);
                }
            }
        }
        acc = acc * 10 + (b - 48) as u32;
        i = i + 1;
    }
    proof {
        assert(bytes@.subrange(first as int, end as int) =~= digits);
    }
    Some(acc)
}

/// Whether `value` is a `YYYY-MM-DD` date that exists (leap years included).
pub fn valid_calendar_date(value: &str) -> (r: bool)
    ensures
        r == calendar_date_valid(encode_utf8(value@)),
{
    let bytes = value.as_bytes();
    if bytes.len() != 10 || bytes[4] != 45 || bytes[7] != 45 {
        return false;
    }
    let year = parse_field(bytes, 0, 4);
    let month = parse_field(bytes, 5, 7);
    let day = parse_field(bytes, 8, 10);
    match (year, month, day) {
        (Some(year), Some(month), Some(day)) => {
            if year == 0 || month < 1 || month > 12 || day == 0 {
                return false;
            }
            let leap = year % 4 == 0 && (year % 100 != 0 || year % 400 == 0);
            let days: u32 = if month == 2 {
                if leap {
                    29
                } else {
                    28
                }
            } else if month == 4 || month == 6 || month == 9 || month == 11 {
                30
            } else {
                31
            };
            day <= days
        },
        _ => false,
    }
}

/// The traits that evidence may move.
pub open spec fn is_evolvable_trait(key: Seq<char>) -> bool {
    ||| key == "curiosity"@
    ||| key == "sociability"@
    ||| key == "criticality"@
    ||| key == "spontaneity"@
    ||| key == "affection"@
    ||| key == "autonomy"@
}

pub fn evolvable_trait(key: &str) -> (r: bool)
    ensures
        r == is_evolvable_trait(key@),
{
    text_equal(key, "curiosity") || text_equal(key, "sociability") || text_equal(
        key,
        "criticality",
    ) || text_equal(key, "spontaneity") || text_equal(key, "affection") || text_equal(
        key,
        "autonomy",
    )
}

/// Trait keys under `protected_` are never moved by evidence.
pub fn protected_trait(key: &str) -> (r: bool)
    ensures
        r == has_prefix(key@, "protected_"@),
{
    starts_with_text(key, "protected_")
}

/// The label shown for a trait key.
pub open spec fn trait_label_text(key: Seq<char>) -> Seq<char> {
    if key == "curiosity"@ {
        "Curiosidade"@
    } else if key == "sociability"@ {
        "Sociabilidade"@
    } else if key == "criticality"@ {
        "Criticidade"@
    } else if key == "spontaneity"@ {
        "Espontaneidade"@
    } else if key == "affection"@ {
        "Afetividade"@
    } else if key == "autonomy"@ {
        "Autonomia"@
    } else {
        "Traço protegido"@
    }
}

pub fn trait_label(key: &str) -> (r: &'static str)
    ensures
        r@ == trait_label_text(key@),
{
    if text_equal(key, "curiosity") {
        "Curiosidade"
    } else if text_equal(key, "sociability") {
        "Sociabilidade"
    } else if text_equal(key, "criticality") {
        "Criticidade"
    } else if text_equal(key, "spontaneity") {
        "Espontaneidade"
    } else if text_equal(key, "affection") {
        "Afetividade"
    } else if text_equal(key, "autonomy") {
        "Autonomia"
    } else {
        "Traço protegido"
    }
}

/// The error of a trait delta aimed at `key`: none for an evolvable trait, `protected_trait`
/// for a protected one, `trait_not_found` otherwise.
pub fn check_trait_key(key: &str) -> (r: Result<(), DatabaseError>)
    ensures
        r is Ok <==> is_evolvable_trait(key@),
        !is_evolvable_trait(key@) && has_prefix(key@, "protected_"@) ==> (r matches Err(
            DatabaseError::Cognitive(code),
        ) && code@ == "protected_trait"@),
        !is_evolvable_trait(key@) && !has_prefix(key@, "protected_"@) ==> (r matches Err(
            DatabaseError::Cognitive(code),
        ) && code@ == "trait_not_found"@),
{
    if evolvable_trait(key) {
        Ok(())
    } else if protected_trait(key) {
        Err(DatabaseError::Cognitive("protected_trait"))
    } else {
        Err(DatabaseError::Cognitive("trait_not_found"))
    }
}

/// A cognitive idempotency key: 1 to 128 bytes of ASCII letters, digits and `-_:`.
pub open spec fn idempotency_key_valid(key: Seq<char>) -> bool {
    key.len() > 0 && byte_len(key) <= 128 && all_in_class(key, CharClass::ColonKey)
}

pub fn valid_idempotency_key(key: &str) -> (r: bool)
    ensures
        r == idempotency_key_valid(key@),
{
    key.unicode_len() > 0 && key.len() <= 128 && all_chars_in_class(key, CharClass::ColonKey)
}

/// One part of an evidence source: 1 to `max_len` bytes of ASCII letters, digits and `-_`.
pub open spec fn source_part_valid(value: Seq<char>, max_len: usize) -> bool {
    value.len() > 0 && byte_len(value) <= max_len && all_in_class(value, CharClass::Slug)
}

pub fn valid_source_part(value: &str, max_len: usize) -> (r: bool)
    ensures
        r == source_part_valid(value@, max_len),
{
    value.unicode_len() > 0 && value.len() <= max_len && all_chars_in_class(value, CharClass::Slug)
}

/// The text checks of an owner correction: the trimmed reason holds 1 to 500 bytes
/// (`invalid_reason`), and the idempotency key is valid (`invalid_idempotency_key`).
pub fn check_owner_correction(reason: &str, idempotency_key: &str) -> (r: Result<
    (),
    DatabaseError,
>)
    ensures
        r is Ok <==> (trimmed(reason@).len() > 0 && byte_len(trimmed(reason@)) <= 500
            && idempotency_key_valid(idempotency_key@)),
        !(trimmed(reason@).len() > 0 && byte_len(trimmed(reason@)) <= 500) ==> (r matches Err(
            DatabaseError::Cognitive(code),
        ) && code@ == "invalid_reason"@),
        (trimmed(reason@).len() > 0 && byte_len(trimmed(reason@)) <= 500) && !idempotency_key_valid(
            idempotency_key@,
        ) ==> (r matches Err(DatabaseError::Cognitive(code)) && code@
            == "invalid_idempotency_key"@),
{
    let reason = trim_text(reason);
    if reason.unicode_len() == 0 || reason.len() > 500 {
        return Err(DatabaseError::Cognitive("invalid_reason"));
    }
    if !valid_idempotency_key(idempotency_key) {
        return Err(DatabaseError::Cognitive("invalid_idempotency_key"));
    }
    Ok(())
}

/// The content of a memory command: after trimming, text that starts (ASCII case aside) with
/// `prefix` is a command, and its content is the rest, trimmed, when it holds 1 to 4000 bytes.
pub open spec fn command_body(t: Seq<char>, prefix: Seq<char>) -> Option<Seq<char>> {
    let content = trimmed(t.subrange(prefix.len() as int, t.len() as int));
    if content.len() > 0 && byte_len(content) <= 4000 {
        Some(content)
    } else {
        None
    }
}

/// An explicit memory request: `lembre que `, `lembra que ` or `anote que ` followed by what
/// to remember.
pub open spec fn memory_command_content(source: Seq<char>) -> Option<Seq<char>> {
    let t = trimmed(source);
    if has_folded_prefix(t, "lembre que "@) {
        command_body(t, "lembre que "@)
    } else if has_folded_prefix(t, "lembra que "@) {
        command_body(t, "lembra que "@)
    } else if has_folded_prefix(t, "anote que "@) {
        command_body(t, "anote que "@)
    } else {
        None
    }
}

fn command_content<'a>(t: &'a str, prefix: &str) -> (r: Option<&'a str>)
    requires
        prefix@.len() <= t@.len(),
    ensures
        match r {
            Some(c) => command_body(t@, prefix@) == Some(c@),
            None => command_body(t@, prefix@) is None,
        },
{
    let rest = t.substring_char(prefix.unicode_len(), t.unicode_len());
    let content = trim_text(rest);
    if content.unicode_len() > 0 && content.len() <= 4000 {
        Some(content)
    } else {
        None
    }
}

/// What an explicit memory command asks to remember, if `source` is one.
pub fn explicit_memory_content(source: &str) -> (r: Option<&str>)
    ensures
        match r {
            Some(c) => memory_command_content(source@) == Some(c@),
            None => memory_command_content(source@) is None,
        },
{
    let t = trim_text(source);
    if starts_with_folded(t, "lembre que ") {
        command_content(t, "lembre que ")
    } else if starts_with_folded(t, "lembra que ") {
        command_content(t, "lembra que ")
    } else if starts_with_folded(t, "anote que ") {
        command_content(t, "anote que ")
    } else {
        None
    }
}

/// A key of the traits object of a profile: an evolvable trait, or `custom_` followed by 1 to
/// 48 ASCII lower-case letters, digits and `_`.
pub open spec fn trait_key_valid(key: Seq<char>) -> bool {
    ||| is_evolvable_trait(key)
    ||| {
        &&& has_prefix(key, "custom_"@)
        &&& key.len() > "custom_"@.len()
        &&& byte_len(key.subrange("custom_"@.len() as int, key.len() as int)) <= 48
        &&& all_in_class(
            key.subrange("custom_"@.len() as int, key.len() as int),
            CharClass::LowerSnake,
        )
    }
}

/// Whether `key` may name a trait in a profile (its value is checked where it is decoded).
pub fn valid_trait_key(key: &str) -> (r: bool)
    ensures
        r == trait_key_valid(key@),
{
    if evolvable_trait(key) {
        return true;
    }
    proof {
        reveal_strlit("custom_");
    }
    if !starts_with_text(key, "custom_") {
        return false;
    }
    let n = key.unicode_len();
    let suffix = key.substring_char(7, n);
    n > 7 && suffix.len() <= 48 && all_chars_in_class(suffix, CharClass::LowerSnake)
}

/// The fields of an agent profile that are checked before it is stored.
#[derive(Debug, Clone, PartialEq, Eq)]
pub struct ProfileFields {
    pub name: String,
    pub birthday: String,
    pub fictive_age: u32,
    pub age_category: String,
    pub species: String,
    pub pronouns: String,
    pub personality_summary: String,
    pub traits_json: String,
    pub appearance_preset: String,
}

/// A filled-in text of at most `maximum` bytes.
pub open spec fn filled_text(s: Seq<char>, maximum: usize) -> bool {
    trimmed(s).len() > 0 && byte_len(s) <= maximum
}

/// A profile is stored when its name, age category, species and pronouns are filled in and
/// bounded, its birthday is a real date, its summary and traits are bounded, its traits are
/// valid (`traits_valid`), its fictive age is at most 10000, and its appearance is one of the
/// two presets.
pub open spec fn profile_valid(p: ProfileFields, traits_valid: bool) -> bool {
    &&& filled_text(p.name@, 120)
    &&& calendar_date_valid(encode_utf8(p.birthday@))
    &&& filled_text(p.age_category@, 64)
    &&& filled_text(p.species@, 120)
    &&& filled_text(p.pronouns@, 120)
    &&& byte_len(p.personality_summary@) <= 1_000
    &&& traits_valid
    &&& byte_len(p.traits_json@) <= 8_192
    &&& p.fictive_age <= 10_000
    &&& (p.appearance_preset@ == "astra"@ || p.appearance_preset@ == "luma"@)
}

fn filled(s: &str, maximum: usize) -> (r: bool)
    ensures
        r == filled_text(s@, maximum),
{
    trim_text(s).unicode_len() > 0 && s.len() <= maximum
}

/// Checks a profile before it is stored: `InvalidValue` unless `profile_valid`.
pub fn validate_profile(profile: &ProfileFields, traits_valid: bool) -> (r: Result<(), DatabaseError>)
    ensures
        r is Ok <==> profile_valid(*profile, traits_valid),
        r is Err ==> r == Err::<(), DatabaseError>(DatabaseError::InvalidValue),
{
    let birthday_is_real_date = valid_calendar_date(profile.birthday.as_str());
    if !filled(profile.name.as_str(), 120) || !birthday_is_real_date || !filled(
        profile.age_category.as_str(),
        64,
    ) || !filled(profile.species.as_str(), 120) || !filled(profile.pronouns.as_str(), 120)
        || profile.personality_summary.as_str().len() > 1_000 || !traits_valid
        || profile.traits_json.as_str().len() > 8_192 || profile.fictive_age > 10_000 || !(
    text_equal(profile.appearance_preset.as_str(), "astra") || text_equal(
        profile.appearance_preset.as_str(),
        "luma",
    )) {
        return Err(DatabaseError::InvalidValue);
    }
    Ok(())
}

pub open spec fn is_hex_byte(b: u8) -> bool {
    (48 <= b && b <= 57) || (65 <= b && b <= 70) || (97 <= b && b <= 102)
}

/// The hyphenated form of a UUID: 36 bytes, hyphens at 8, 13, 18 and 23, hexadecimal
/// digits elsewhere.
pub open spec fn hyphenated_uuid(b: Seq<u8>) -> bool {
    &&& b.len() == 36
    &&& b[8] == 45 && b[13] == 45 && b[18] == 45 && b[23] == 45
    &&& forall|i: int|
        0 <= i < 36 && i != 8 && i != 13 && i != 18 && i != 23 ==> #[trigger] is_hex_byte(b[i])
}

/// `b` lower-cased in the ASCII range is `expected` (which is lower-case).
pub open spec fn ascii_caseless_eq(b: Seq<u8>, expected: Seq<u8>) -> bool {
    b.len() == expected.len() && forall|i: int|
        0 <= i < b.len() ==> (#[trigger] b[i] == expected[i] || (65 <= b[i] && b[i] <= 90 && b[i]
            + 32 == expected[i]))
}

/// What `uuid::Uuid::parse_str` accepts: 32 hexadecimal digits; the hyphenated form; the
/// hyphenated form in braces; or `urn:uuid:` (any ASCII case) and the hyphenated form.
pub open spec fn uuid_text_accepted(b: Seq<u8>) -> bool {
    ||| (b.len() == 32 && forall|i: int| 0 <= i < 32 ==> #[trigger] is_hex_byte(b[i]))
    ||| hyphenated_uuid(b)
    ||| (b.len() == 38 && b[0] == 123 && b[37] == 125 && hyphenated_uuid(b.subrange(1, 37)))
    ||| (b.len() == 45 && ascii_caseless_eq(
        b.subrange(0, 9),
        seq![117u8, 114u8, 110u8, 58u8, 117u8, 117u8, 105u8, 100u8, 58u8],
    ) && hyphenated_uuid(b.subrange(9, 45)))
}

/// `uuid::Uuid::parse_str` succeeds on `value`: the shapes of `uuid_text_accepted`, read from
/// the UTF-8 bytes of the text.
#[verifier::external_body]
fn uuid_parses(value: &str) -> (r: bool)
    ensures
        r == uuid_text_accepted(encode_utf8(value@)),
{
    uuid::Uuid::parse_str(value).is_ok()
}

/// The inputs of a regeneration or edit: a valid model reference and a request id that is a
/// UUID.
pub fn check_branch_attempt_input(model_ref: &str, request_id: &str) -> (r: Result<
    (),
    DatabaseError,
>)
    ensures
        r is Ok <==> model_ref_valid(model_ref@) && uuid_text_accepted(encode_utf8(request_id@)),
        r is Err ==> r == Err::<(), DatabaseError>(DatabaseError::InvalidValue),
{
    if !valid_model_ref(model_ref) || !uuid_parses(request_id) {
        Err(DatabaseError::InvalidValue)
    } else {
        Ok(())
    }
}

/// A branch starts from a user message when it edits, and from an agent reply when it
/// regenerates.
pub fn check_branch_source(edited: bool, source_author: &str) -> (r: Result<(), DatabaseError>)
    ensures
        edited ==> (r is Ok <==> source_author@ == "user"@),
        !edited ==> (r is Ok <==> source_author@ == "agent"@),
        r is Err ==> r == Err::<(), DatabaseError>(DatabaseError::InvalidValue),
{
    let expected = if edited {
        "user"
    } else {
        "agent"
    };
    if text_equal(source_author, expected) {
        Ok(())
    } else {
        Err(DatabaseError::InvalidValue)
    }
}

/// Whether a cognitive event may be rolled back, and if not, why: only an applied event that
/// is not itself a rollback and was never rolled back (`rollback_not_allowed`), and only the
/// latest applied event of its trait (`rollback_conflict`).
pub fn check_rollback_target(
    target_kind: &str,
    target_status: &str,
    already_rolled_back: bool,
    latest_event_id: &str,
    event_id: &str,
) -> (r: Result<(), DatabaseError>)
    ensures
        (target_kind@ == "rollback"@ || target_status@ != "applied"@ || already_rolled_back) ==> (r matches Err(
            DatabaseError::Cognitive(c),
        ) && c@ == "rollback_not_allowed"@),
        !(target_kind@ == "rollback"@ || target_status@ != "applied"@ || already_rolled_back)
            && latest_event_id@ != event_id@ ==> (r matches Err(DatabaseError::Cognitive(c)) && c@
            == "rollback_conflict"@),
        !(target_kind@ == "rollback"@ || target_status@ != "applied"@ || already_rolled_back)
            && latest_event_id@ == event_id@ ==> r is Ok,
{
    if text_equal(target_kind, "rollback") || !text_equal(target_status, "applied")
        || already_rolled_back {
        return Err(DatabaseError::Cognitive("rollback_not_allowed"));
    }
    if !text_equal(latest_event_id, event_id) {
        return Err(DatabaseError::Cognitive("rollback_conflict"));
    }
    Ok(())
}


/// The text of a memory: its trimmed category holds 1 to 64 bytes and its trimmed content 1
/// to 4000.
pub open spec fn memory_text_valid(category: Seq<char>, content: Seq<char>) -> bool {
    &&& trimmed(category).len() > 0
    &&& byte_len(trimmed(category)) <= 64
    &&& trimmed(content).len() > 0
    &&& byte_len(trimmed(content)) <= 4_000
}

/// The category and content of a memory that is created or edited, trimmed; `InvalidValue`
/// when either is empty or too long.
pub fn check_memory_text<'a>(category: &'a str, content: &'a str) -> (r: Result<
    (&'a str, &'a str),
    DatabaseError,
>)
    ensures
        r is Ok <==> memory_text_valid(category@, content@),
        r matches Ok((c, t)) ==> c@ == trimmed(category@) && t@ == trimmed(content@),
        r is Err ==> r == Err::<(&str, &str), DatabaseError>(DatabaseError::InvalidValue),
{
    let category = trim_text(category);
    let content = trim_text(content);
    if category.unicode_len() == 0 || category.len() > 64 || content.unicode_len() == 0
        || content.len() > 4_000 {
        return Err(DatabaseError::InvalidValue);
    }
    Ok((category, content))
}

/// The statuses a memory can be set to.
pub open spec fn memory_status_known(status: Seq<char>) -> bool {
    ||| status == "active"@
    ||| status == "archived"@
    ||| status == "trashed"@
    ||| status == "candidate_rejected"@
}

/// A new memory status is one of `active`, `archived`, `trashed` and `candidate_rejected`;
/// any other is `InvalidValue`.
pub fn check_memory_status(status: &str) -> (r: Result<(), DatabaseError>)
    ensures
        r is Ok <==> memory_status_known(status@),
        r is Err ==> r == Err::<(), DatabaseError>(DatabaseError::InvalidValue),
{
    if text_equal(status, "active") || text_equal(status, "archived") || text_equal(
        status,
        "trashed",
    ) || text_equal(status, "candidate_rejected") {
        Ok(())
    } else {
        Err(DatabaseError::InvalidValue)
    }
}

/// The confirmation of a memory after its status is set: an active memory is confirmed, a
/// rejected candidate is rejected, and otherwise the confirmation stays.
pub open spec fn confirmation_after(status: Seq<char>, current: Seq<char>) -> Seq<char> {
    if status == "active"@ {
        "confirmed"@
    } else if status == "candidate_rejected"@ {
        "rejected"@
    } else {
        current
    }
}

pub fn confirmation_after_status(status: &str, current: &str) -> (r: String)
    ensures
        r@ == confirmation_after(status@, current@),
{
    if text_equal(status, "active") {
        "confirmed".to_owned()
    } else if text_equal(status, "candidate_rejected") {
        "rejected".to_owned()
    } else {
        current.to_owned()
    }
}

/// A filter of a memory search, when given, is not blank and holds at most 64 bytes.
pub open spec fn search_filter_valid(filter: Option<Seq<char>>) -> bool {
    match filter {
        Some(v) => trimmed(v).len() > 0 && byte_len(v) <= 64,
        None => true,
    }
}

/// The text a memory search looks for: the trimmed query, unless it is blank.
pub open spec fn search_text(query: Option<Seq<char>>) -> Option<Seq<char>> {
    match query {
        Some(q) => if trimmed(q).len() > 0 {
            Some(trimmed(q))
        } else {
            None
        },
        None => None,
    }
}

/// The view of an optional text.
pub open spec fn opt_view(v: Option<&str>) -> Option<Seq<char>> {
    match v {
        Some(s) => Some(s@),
        None => None,
    }
}

/// The inputs of a memory search: every filter is valid and the text looked for holds at
/// most 256 bytes.
pub open spec fn memory_search_valid(
    query: Option<Seq<char>>,
    status: Option<Seq<char>>,
    category: Option<Seq<char>>,
    source_type: Option<Seq<char>>,
) -> bool {
    &&& search_filter_valid(status)
    &&& search_filter_valid(category)
    &&& search_filter_valid(source_type)
    &&& match search_text(query) {
        Some(q) => byte_len(q) <= 256,
        None => true,
    }
}

fn filter_ok(filter: Option<&str>) -> (r: bool)
    ensures
        r == search_filter_valid(opt_view(filter)),
{
    match filter {
        Some(v) => trim_text(v).unicode_len() > 0 && v.len() <= 64,
        None => true,
    }
}

/// Checks the inputs of a memory search and gives the text it looks for; `InvalidValue`
/// unless `memory_search_valid`.
pub fn check_memory_search<'a>(
    query: Option<&'a str>,
    status: Option<&str>,
    category: Option<&str>,
    source_type: Option<&str>,
) -> (r: Result<Option<&'a str>, DatabaseError>)
    ensures
        r is Ok <==> memory_search_valid(
            opt_view(query),
            opt_view(status),
            opt_view(category),
            opt_view(source_type),
        ),
        r matches Ok(q) ==> opt_view(q) == search_text(opt_view(query)),
        r is Err ==> r == Err::<Option<&str>, DatabaseError>(DatabaseError::InvalidValue),
{
    if !filter_ok(status) || !filter_ok(category) || !filter_ok(source_type) {
        return Err(DatabaseError::InvalidValue);
    }
    let text = match query {
        Some(q) => {
            let t = trim_text(q);
            if t.unicode_len() > 0 {
                Some(t)
            } else {
                None
            }
        },
        None => None,
    };
    match text {
        Some(t) => if t.len() > 256 {
            Err(DatabaseError::InvalidValue)
        } else {
            Ok(Some(t))
        },
        None => Ok(None),
    }
}

/// A complete agent reply with the given id.
pub open spec fn is_memorised_reply(m: ConversationMessage, id: Seq<char>) -> bool {
    m.id@ == id && m.author == MessageAuthor::Agent && m.status == MessageStatus::Complete
}

/// A complete message of the owner.
pub open spec fn is_complete_user_message(m: ConversationMessage) -> bool {
    m.author == MessageAuthor::User && m.status == MessageStatus::Complete
}

/// `i` is the first reply with the given id among the visible messages.
pub open spec fn first_reply_at(s: Seq<ConversationMessage>, id: Seq<char>, i: int) -> bool {
    &&& 0 <= i < s.len()
    &&& is_memorised_reply(s[i], id)
    &&& forall|k: int| 0 <= k < i ==> !is_memorised_reply(#[trigger] s[k], id)
}

/// The message an explicit memory comes from: the last complete owner message before the
/// first reply with the given id.
pub open spec fn memory_source_at(s: Seq<ConversationMessage>, id: Seq<char>, j: int) -> bool {
    exists|i: int|
        #![trigger first_reply_at(s, id, i)]
        first_reply_at(s, id, i) && 0 <= j < i && is_complete_user_message(s[j]) && forall|k: int|
            j < k < i ==> !is_complete_user_message(#[trigger] s[k])
}

/// No message of the visible ones is the source of an explicit memory.
pub open spec fn no_memory_source(s: Seq<ConversationMessage>, id: Seq<char>) -> bool {
    forall|i: int, j: int|
        #![trigger first_reply_at(s, id, i), s[j]]
        first_reply_at(s, id, i) && 0 <= j < i ==> !is_complete_user_message(s[j])
}

fn first_reply_index(visible: &[ConversationMessage], id: &str) -> (r: Option<usize>)
    ensures
        match r {
            Some(i) => first_reply_at(visible@, id@, i as int),
            None => forall|k: int| 0 <= k < visible@.len() ==> !is_memorised_reply(#[trigger] visible@[k], id@),
        },
{
    let mut i: usize = 0;
    while i < visible.len()
        invariant
            i <= visible@.len(),
            forall|k: int| 0 <= k < i ==> !is_memorised_reply(#[trigger] visible@[k], id@),
        decreases visible@.len() - i,
    {
        let m = &visible[i];
        if text_equal(m.id.as_str(), id) && m.author == MessageAuthor::Agent && m.status
            == MessageStatus::Complete {
            return Some(i);
        }
        i = i + 1;
    }
    None
}

/// The index of the message an explicit memory of the reply `assistant_message_id` comes
/// from, if there is one.
pub fn explicit_memory_source(visible: &[ConversationMessage], assistant_message_id: &str) -> (r:
    Option<usize>)
    ensures
        match r {
            Some(j) => memory_source_at(visible@, assistant_message_id@, j as int),
            None => no_memory_source(visible@, assistant_message_id@),
        },
{
    let ghost id = assistant_message_id@;
    match first_reply_index(visible, assistant_message_id) {
        None => {
            assert forall|i: int, j: int|
                first_reply_at(visible@, id, i) && 0 <= j < i implies !is_complete_user_message(
                visible@[j],
            ) by {
                assert(!is_memorised_reply(visible@[i], id));
            }
            None
        },
        Some(i) => {
            let mut j: usize = i;
            while j > 0
                invariant
                    j <= i,
                    i < visible@.len(),
                    id == assistant_message_id@,
                    first_reply_at(visible@, id, i as int),
                    forall|k: int| j <= k < i ==> !is_complete_user_message(#[trigger] visible@[k]),
                decreases j,
            {
                let m = &visible[j - 1];
                if m.author == MessageAuthor::User && m.status == MessageStatus::Complete {
                    assert(memory_source_at(visible@, id, (j - 1) as int)) by {
                        assert(first_reply_at(visible@, id, i as int));
                    }
                    return Some(j - 1);
                }
                j = j - 1;
            }
            assert forall|i2: int, j2: int|
                first_reply_at(visible@, id, i2) && 0 <= j2 < i2 implies !is_complete_user_message(
                visible@[j2],
            ) by {
                if i2 < i {
                    assert(!is_memorised_reply(visible@[i2], id));
                } else if i < i2 {
                    assert(!is_memorised_reply(visible@[i as int], id));
                }
            }
            None
        },
    }
}

/// The candidate an owner's explicit request gives: the index of the owner message it comes
/// from and what it asks to remember, when the reply has such a source and that message is a
/// memory command.
pub fn explicit_memory_candidate<'a>(
    visible: &'a [ConversationMessage],
    assistant_message_id: &str,
) -> (r: Option<(usize, &'a str)>)
    ensures
        r matches Some((j, c)) ==> memory_source_at(visible@, assistant_message_id@, j as int)
            && memory_command_content(visible@[j as int].content@) == Some(c@),
        r is None ==> no_memory_source(visible@, assistant_message_id@) || forall|j: int|
            memory_source_at(visible@, assistant_message_id@, j)
                ==> #[trigger] memory_command_content(visible@[j].content@) is None,
{
    match explicit_memory_source(visible, assistant_message_id) {
        None => None,
        Some(j) => {
            let ghost id = assistant_message_id@;
            proof {
                lemma_memory_source_unique(visible@, id, j as int);
            }
            match explicit_memory_content(visible[j].content.as_str()) {
                Some(c) => Some((j, c)),
                None => None,
            }
        },
    }
}

/// The source of an explicit memory, when there is one, is a single message.
pub proof fn lemma_memory_source_unique(s: Seq<ConversationMessage>, id: Seq<char>, j: int)
    requires
        memory_source_at(s, id, j),
    ensures
        forall|j2: int| #[trigger] memory_source_at(s, id, j2) ==> j2 == j,
{
    let i = choose|i: int|
        #![trigger first_reply_at(s, id, i)]
        first_reply_at(s, id, i) && 0 <= j < i && is_complete_user_message(s[j]) && forall|k: int|
            j < k < i ==> !is_complete_user_message(#[trigger] s[k]);
    assert forall|j2: int| #[trigger] memory_source_at(s, id, j2) implies j2 == j by {
        let i2 = choose|i2: int|
            #![trigger first_reply_at(s, id, i2)]
            first_reply_at(s, id, i2) && 0 <= j2 < i2 && is_complete_user_message(s[j2])
                && forall|k: int| j2 < k < i2 ==> !is_complete_user_message(#[trigger] s[k]);
        if i < i2 {
            assert(!is_memorised_reply(s[i], id));
        } else if i2 < i {
            assert(!is_memorised_reply(s[i2], id));
        }
        assert(i == i2);
        if j < j2 {
            assert(!is_complete_user_message(s[j2]));
        } else if j2 < j {
            assert(!is_complete_user_message(s[j]));
        }
    }
}


/// A conversation title, trimmed, holds 1 to 160 bytes.
pub open spec fn conversation_title_valid(title: Seq<char>) -> bool {
    trimmed(title).len() > 0 && byte_len(trimmed(title)) <= 160
}

/// The title of a conversation that is created or renamed, trimmed; `InvalidValue` when it is
/// blank or too long.
pub fn check_conversation_title(title: &str) -> (r: Result<&str, DatabaseError>)
    ensures
        r is Ok <==> conversation_title_valid(title@),
        r matches Ok(t) ==> t@ == trimmed(title@),
        r is Err ==> r == Err::<&str, DatabaseError>(DatabaseError::InvalidValue),
{
    let title = trim_text(title);
    if title.unicode_len() == 0 || title.len() > 160 {
        Err(DatabaseError::InvalidValue)
    } else {
        Ok(title)
    }
}

/// How long a model stays loaded: at most `MAX_KEEP_ALIVE_MINUTES`, else `InvalidValue`.
pub fn check_keep_alive(minutes: u32) -> (r: Result<(), DatabaseError>)
    ensures
        r is Ok <==> minutes <= MAX_KEEP_ALIVE_MINUTES,
        r is Err ==> r == Err::<(), DatabaseError>(DatabaseError::InvalidValue),
{
    if minutes > MAX_KEEP_ALIVE_MINUTES {
        Err(DatabaseError::InvalidValue)
    } else {
        Ok(())
    }
}


/// What a request does with an earlier answer stored under its idempotency key.
#[derive(Debug, Clone, Copy, PartialEq, Eq, Structural)]
pub enum ReplayDecision {
    /// Nothing is stored under the key: the request runs.
    Proceed,
    /// The stored answer was given to this very request: it is given again.
    Replay,
}

/// The replay rule of an idempotency key: with nothing stored the request proceeds; a stored
/// answer to the same request (by its canonical text) is replayed; one to another request
/// is an `idempotency_conflict`.
pub fn replay_decision(stored_request: Option<&str>, request: &str) -> (r: Result<
    ReplayDecision,
    DatabaseError,
>)
    ensures
        stored_request is None ==> r == Ok::<ReplayDecision, DatabaseError>(
            ReplayDecision::Proceed,
        ),
        stored_request matches Some(s) && s@ == request@ ==> r == Ok::<
            ReplayDecision,
            DatabaseError,
        >(ReplayDecision::Replay),
        stored_request matches Some(s) && s@ != request@ ==> (r matches Err(
            DatabaseError::Cognitive(c),
        ) && c@ == "idempotency_conflict"@),
{
    match stored_request {
        None => Ok(ReplayDecision::Proceed),
        Some(s) => if text_equal(s, request) {
            Ok(ReplayDecision::Replay)
        } else {
            Err(DatabaseError::Cognitive("idempotency_conflict"))
        },
    }
}

} // verus!
