//! Validation and repair of near-miss JSON: single quotes, unquoted keys,
//! trailing commas and missing closing brackets.
use vstd::prelude::*;
use vstd::string::*;
use crate::patterns::{regex_compiles, regex_replacement, regex_replace_all};
use crate::text::{is_alphanumeric, is_ascii_alphanumeric, is_white_space, char_is_whitespace, char_is_alphanumeric, chars_of, string_from_chars, push_char};

verus! {

// ---------------------------------------------------------------------
// JSON parsing and trailing-comma removal, done by serde_json and regex
// ---------------------------------------------------------------------

/// Whether `s` is one JSON document, as serde_json parses it into a value.
pub uninterp spec fn json_valid(s: Seq<char>) -> bool;

/// The compact text that serde_json prints for the value it parses from `s`.
pub uninterp spec fn json_normal_form(s: Seq<char>) -> Seq<char>;

/// The text that serde_json's parse error for `s` displays (its message,
/// line and column).
pub uninterp spec fn json_error_text(s: Seq<char>) -> Seq<char>;

/// Parses `s` with `serde_json::from_str` into a `serde_json::Value` and
/// prints that value back with its `Display` (compact) form. The contract
/// claims that parsing succeeds exactly on valid documents, names the
/// printed text, and claims that it is valid JSON itself; on failure it
/// names the displayed parse error, which is not described further.
#[verifier::external_body]
fn normalize_json(s: &str) -> (r: Result<String, String>)
    ensures
        r is Ok <==> json_valid(s@),
        r matches Ok(t) ==> t@ == json_normal_form(s@) && json_valid(t@),
        r matches Err(e) ==> e@ == json_error_text(s@),
{
    match serde_json::from_str::<serde_json::Value>(s) {
        Ok(v) => Ok(v.to_string()),
        Err(e) => Err(e.to_string()),
    }
}

// ---------------------------------------------------------------------
// Specifications of the individual repairs
// ---------------------------------------------------------------------

/// Scanner state of the single-quote repair:
/// (inside a double-quoted string, inside a single-quoted string, escaping).
pub type QuoteScan = (bool, bool, bool);

/// One character of the single-quote repair: the next state and the
/// character written.
pub open spec fn single_quote_step(st: QuoteScan, c: char) -> (QuoteScan, char) {
    let (in_string, in_single, escape) = st;
    if escape {
        ((in_string, in_single, false), c)
    } else if c == '"' && !in_single {
        ((!in_string, in_single, false), '"')
    } else if c == '\'' && !in_string {
        ((in_string, !in_single, false), '"')
    } else if c == '\'' && in_single {
        ((in_string, false, false), '"')
    } else if c == '\\' && (in_string || in_single) {
        ((in_string, in_single, true), '\\')
    } else {
        (st, c)
    }
}

/// The single-quote repair run over `s`: final state and output.
pub open spec fn single_quote_run(s: Seq<char>) -> (QuoteScan, Seq<char>)
    decreases s.len(),
{
    if s.len() == 0 {
        ((false, false, false), Seq::empty())
    } else {
        let (st, out) = single_quote_run(s.drop_last());
        let (st2, c) = single_quote_step(st, s.last());
        (st2, out.push(c))
    }
}

/// `s` with single-quoted strings turned into double-quoted ones.
pub open spec fn fixed_single_quotes(s: Seq<char>) -> Seq<char> {
    single_quote_run(s).1
}

/// Characters that may make up a bare object key.
pub open spec fn is_key_char(c: char) -> bool {
    if (c as u32) < 128 {
        is_ascii_alphanumeric(c) || c == '_' || c == '$' || c == '-'
    } else {
        is_alphanumeric(c)
    }
}

/// Scanning back from position `i`, the position where a run of
/// whitespace ending at `i` begins.
pub open spec fn white_run_start(r: Seq<char>, i: int) -> int
    decreases i,
{
    if 0 < i && i <= r.len() && is_white_space(r[i - 1]) {
        white_run_start(r, i - 1)
    } else {
        i
    }
}

/// Scanning back from position `i`, the position where a run of key
/// characters ending at `i` begins.
pub open spec fn key_run_start(r: Seq<char>, i: int) -> int
    decreases i,
{
    if 0 < i && i <= r.len() && is_key_char(r[i - 1]) {
        key_run_start(r, i - 1)
    } else {
        i
    }
}

/// The output so far with the bare word that precedes a colon (trailing
/// whitespace skipped) wrapped in double quotes; unchanged when no such
/// word is there.
pub open spec fn quote_last_word(r: Seq<char>) -> Seq<char> {
    let end = white_run_start(r, r.len() as int);
    let start = key_run_start(r, end);
    if start < end {
        r.take(start) + seq!['"'] + r.subrange(start, end) + seq!['"'] + r.skip(end)
    } else {
        r
    }
}

/// Scanner state of the unquoted-key repair:
/// (inside a string, escaping, number of objects open around the position).
pub type KeyScan = (bool, bool, nat);

/// One character of the unquoted-key repair applied to the output so far:
/// a colon outside strings, with at least one object open, quotes the bare
/// word before it.
pub open spec fn unquoted_step(st: KeyScan, r: Seq<char>, c: char) -> (KeyScan, Seq<char>) {
    let (in_string, escape, depth) = st;
    if escape {
        ((in_string, false, depth), r.push(c))
    } else if c == '"' {
        ((!in_string, false, depth), r.push(c))
    } else if c == '\\' && in_string {
        ((in_string, true, depth), r.push(c))
    } else if c == '{' && !in_string {
        ((in_string, false, depth + 1), r.push(c))
    } else if c == '}' && !in_string {
        ((in_string, false, if depth > 0 { (depth - 1) as nat } else { 0 }), r.push(c))
    } else if c == ':' && !in_string && depth > 0 {
        (st, quote_last_word(r).push(c))
    } else {
        (st, r.push(c))
    }
}

/// The unquoted-key repair run over `s`: final state and output.
pub open spec fn unquoted_run(s: Seq<char>) -> (KeyScan, Seq<char>)
    decreases s.len(),
{
    if s.len() == 0 {
        ((false, false, 0), Seq::empty())
    } else {
        let (st, out) = unquoted_run(s.drop_last());
        unquoted_step(st, out, s.last())
    }
}

/// `s` with bare object keys wrapped in double quotes.
pub open spec fn fixed_unquoted_keys(s: Seq<char>) -> Seq<char> {
    unquoted_run(s).1
}

/// Scanner state of the bracket repair: (inside a string, escaping, the
/// unmatched openers, innermost last).
pub type BracketScan = (bool, bool, Seq<char>);

/// One character of the bracket repair's scan: outside strings an opener
/// is pushed and a closer that matches the innermost opener pops it.
pub open spec fn bracket_step(st: BracketScan, c: char) -> BracketScan {
    let (in_string, escape, stack) = st;
    if escape {
        (in_string, false, stack)
    } else if in_string {
        if c == '"' {
            (false, false, stack)
        } else if c == '\\' {
            (true, true, stack)
        } else {
            st
        }
    } else if c == '"' {
        (true, false, stack)
    } else if c == '{' || c == '[' {
        (false, false, stack.push(c))
    } else if stack.len() > 0 && closer_of(stack.last()) == c {
        (false, false, stack.drop_last())
    } else {
        st
    }
}

/// The bracket scan from state `st` over `t`.
pub open spec fn bracket_run_from(st: BracketScan, t: Seq<char>) -> BracketScan
    decreases t.len(),
{
    if t.len() == 0 {
        st
    } else {
        bracket_step(bracket_run_from(st, t.drop_last()), t.last())
    }
}

/// The bracket scan of `s` from its start.
pub open spec fn bracket_run(s: Seq<char>) -> BracketScan {
    bracket_run_from((false, false, Seq::empty()), s)
}

/// The closer of an opener.
pub open spec fn closer_of(c: char) -> char {
    if c == '{' {
        '}'
    } else {
        ']'
    }
}

/// The closers of the openers on `stack`, innermost first.
pub open spec fn closers(stack: Seq<char>) -> Seq<char> {
    Seq::new(stack.len(), |i: int| closer_of(stack[stack.len() - 1 - i]))
}

/// `s` followed by the closers of its unmatched openers, innermost first.
pub open spec fn fixed_brackets(s: Seq<char>) -> Seq<char> {
    s + closers(bracket_run(s).2)
}

/// The pattern of a comma that only whitespace separates from a closing
/// brace or bracket.
pub open spec fn trailing_comma_pattern() -> Seq<char> {
    ",(\\s*[}\\]])"@
}

/// `s` with trailing commas removed by the regex replacement.
pub open spec fn fixed_trailing_commas(s: Seq<char>) -> Seq<char> {
    if regex_compiles(trailing_comma_pattern()) {
        regex_replacement(trailing_comma_pattern(), s, "$1"@)
    } else {
        s
    }
}

// ---------------------------------------------------------------------
// The repairs
// ---------------------------------------------------------------------

/// Which repairs to try and how often to retry.
#[derive(Debug, Clone)]
pub struct JsonRepairConfig {
    /// Maximum number of repair attempts
    pub max_retries: u32,
    /// Whether to attempt to fix unquoted keys
    pub fix_unquoted_keys: bool,
    /// Whether to attempt to fix trailing commas
    pub fix_trailing_commas: bool,
    /// Whether to attempt to fix mismatched brackets
    pub fix_mismatched_brackets: bool,
    /// Whether to attempt to fix single quotes
    pub fix_single_quotes: bool,
}

/// A document that could not be parsed.
#[derive(Debug, Clone)]
pub struct JsonError {
    /// "Invalid JSON: " followed by the parser's description.
    pub message: String,
}

/// JSON repair utility for fixing malformed JSON.
pub struct JsonRepair {
    config: JsonRepairConfig,
}

/// The repairs that `config` enables, applied in order: single quotes,
/// unquoted keys, trailing commas, missing closers.
pub open spec fn repaired_text(config: JsonRepairConfig, s: Seq<char>) -> Seq<char> {
    let a = if config.fix_single_quotes { fixed_single_quotes(s) } else { s };
    let b = if config.fix_unquoted_keys { fixed_unquoted_keys(a) } else { a };
    let c = if config.fix_trailing_commas { fixed_trailing_commas(b) } else { b };
    if config.fix_mismatched_brackets { fixed_brackets(c) } else { c }
}

/// What parsing with repair yields: the document itself when it parses,
/// else its repair when retries are allowed and the repair parses.
pub open spec fn parsed_with_repair(config: JsonRepairConfig, s: Seq<char>) -> Option<Seq<char>> {
    if json_valid(s) {
        Some(json_normal_form(s))
    } else if config.max_retries > 0 && json_valid(repaired_text(config, s)) {
        Some(json_normal_form(repaired_text(config, s)))
    } else {
        None
    }
}

/// The message of the failure to parse `s`: "Invalid JSON: " and the
/// parser's own description.
pub open spec fn parse_error_message(s: Seq<char>) -> Seq<char> {
    "Invalid JSON: "@ + json_error_text(s)
}

impl JsonRepair {
    /// The configuration in force.
    pub closed spec fn config(&self) -> JsonRepairConfig {
        self.config
    }

    /// A repairer with every repair enabled.
    pub fn new(max_retries: u32) -> (r: Self)
        ensures
            r.config() == (JsonRepairConfig {
                max_retries,
                fix_unquoted_keys: true,
                fix_trailing_commas: true,
                fix_mismatched_brackets: true,
                fix_single_quotes: true,
            }),
    {
        let config = JsonRepairConfig {
            max_retries,
            fix_unquoted_keys: true,
            fix_trailing_commas: true,
            fix_mismatched_brackets: true,
            fix_single_quotes: true,
        };
        Self { config }
    }

    /// A repairer with the given configuration.
    pub fn with_config(config: JsonRepairConfig) -> (r: Self)
        ensures
            r.config() == config,
    {
        Self { config }
    }

    /// Parses `json_str`; on success gives the compact text of the parsed value.
    pub fn validate_json(&self, json_str: &str) -> (r: Result<String, JsonError>)
        ensures
            r is Ok <==> json_valid(json_str@),
            r matches Ok(t) ==> t@ == json_normal_form(json_str@),
            r matches Err(e) ==> e.message@ == parse_error_message(json_str@),
    {
        match normalize_json(json_str) {
            Ok(t) => Ok(t),
            Err(e) => {
                let mut message = String::from_str("Invalid JSON: ");
                message.append(e.as_str());
                Err(JsonError { message })
            },
        }
    }

    /// Applies the enabled repairs; succeeds when the result parses, and
    /// then gives the repaired text.
    pub fn repair_json(&self, malformed_json: &str) -> (r: Result<String, JsonError>)
        ensures
            r is Ok <==> json_valid(repaired_text(self.config(), malformed_json@)),
            r matches Ok(t) ==> t@ == repaired_text(self.config(), malformed_json@),
            r matches Err(e) ==> e.message@ == parse_error_message(
                repaired_text(self.config(), malformed_json@),
            ),
    {
        let mut repaired = String::from_str(malformed_json);
        if self.config.fix_single_quotes {
            repaired = self.fix_single_quotes(repaired.as_str());
        }
        if self.config.fix_unquoted_keys {
            repaired = self.fix_unquoted_keys(repaired.as_str());
        }
        if self.config.fix_trailing_commas {
            repaired = self.fix_trailing_commas(repaired.as_str());
        }
        if self.config.fix_mismatched_brackets {
            repaired = self.fix_mismatched_brackets(repaired.as_str());
        }
        match self.validate_json(repaired.as_str()) {
            Ok(_) => Ok(repaired),
            Err(e) => Err(e),
        }
    }

    /// Wraps the bare word before each colon inside an object (at any depth)
    /// in double quotes.
    pub fn fix_unquoted_keys(&self, json_str: &str) -> (r: String)
        ensures
            r@ == fixed_unquoted_keys(json_str@),
    {
        let chars = chars_of(json_str);
        let mut result: Vec<char> = Vec::new();
        let mut in_string = false;
        let mut escape_next = false;
        let mut depth: usize = 0;
        let mut i: usize = 0;
        while i < chars.len()
            invariant
                i <= chars.len(),
                depth <= i,
                unquoted_run(chars@.take(i as int)) == ((in_string, escape_next, depth as nat), result@),
            decreases chars.len() - i,
        {
            let ch = chars[i];
            assert(chars@.take(i + 1).drop_last() == chars@.take(i as int));
            if escape_next {
                escape_next = false;
                result.push(ch);
            } else {
                match ch {
                    '"' if !in_string => {
                        in_string = true;
                        result.push(ch);
                    },
                    '"' if in_string => {
                        in_string = false;
                        result.push(ch);
                    },
                    '\\' if in_string => {
                        escape_next = true;
                        result.push(ch);
                    },
                    '{' if !in_string => {
                        depth = depth + 1;
                        result.push(ch);
                    },
                    '}' if !in_string => {
                        if depth > 0 {
                            depth = depth - 1;
                        }
                        result.push(ch);
                    },
                    ':' if !in_string && depth > 0 => {
                        quote_preceding_word(&mut result);
                        result.push(ch);
                    },
                    _ => result.push(ch),
                }
            }
            i = i + 1;
        }
        assert(chars@.take(chars.len() as int) == chars@);
        string_from_chars(&result)
    }

    /// Removes each comma that only whitespace separates from a closing
    /// brace or bracket.
    pub fn fix_trailing_commas(&self, json_str: &str) -> (r: String)
        ensures
            r@ == fixed_trailing_commas(json_str@),
    {
        match regex_replace_all(",(\\s*[}\\]])", json_str, "$1") {
            Some(t) => t,
            None => String::from_str(json_str),
        }
    }

    /// Appends the closers that the unmatched openers in `json_str` lack,
    /// innermost first; brackets inside strings are not counted.
    pub fn fix_mismatched_brackets(&self, json_str: &str) -> (r: String)
        ensures
            r@ == fixed_brackets(json_str@),
    {
        let chars = chars_of(json_str);
        let mut in_string = false;
        let mut escape = false;
        let mut stack: Vec<char> = Vec::new();
        let mut i: usize = 0;
        while i < chars.len()
            invariant
                i <= chars.len(),
                bracket_run(chars@.take(i as int)) == (in_string, escape, stack@),
                forall|j: int| 0 <= j < stack@.len() ==> stack@[j] == '{' || stack@[j] == '[',
            decreases chars.len() - i,
        {
            let c = chars[i];
            assert(chars@.take(i + 1).drop_last() == chars@.take(i as int));
            if escape {
                escape = false;
            } else if in_string {
                if c == '"' {
                    in_string = false;
                } else if c == '\\' {
                    escape = true;
                }
            } else if c == '"' {
                in_string = true;
            } else if c == '{' || c == '[' {
                stack.push(c);
            } else if stack.len() > 0 && ((c == '}' && stack[stack.len() - 1] == '{') || (c == ']'
                && stack[stack.len() - 1] == '[')) {
                let ghost before = stack@;
                stack.pop();
                assert(stack@ == before.drop_last());
            }
            i = i + 1;
        }
        assert(chars@.take(chars.len() as int) == chars@);
        let mut result = String::from_str(json_str);
        let ghost st = stack@;
        let mut k: usize = 0;
        while k < stack.len()
            invariant
                k <= stack.len(),
                stack@ == st,
                result@ == json_str@ + closers(st).take(k as int),
            decreases stack.len() - k,
        {
            let opener = stack[stack.len() - 1 - k];
            let closer = if opener == '{' {
                '}'
            } else {
                ']'
            };
            push_char(&mut result, closer);
            assert(closers(st).take(k + 1) == closers(st).take(k as int).push(closer));
            k = k + 1;
        }
        assert(closers(st).take(st.len() as int) == closers(st));
        result
    }

    /// Turns single-quoted strings into double-quoted ones.
    pub fn fix_single_quotes(&self, json_str: &str) -> (r: String)
        ensures
            r@ == fixed_single_quotes(json_str@),
    {
        let chars = chars_of(json_str);
        let mut result = String::new();
        let mut in_string = false;
        let mut in_single_quote_string = false;
        let mut escape_next = false;
        let mut i: usize = 0;
        while i < chars.len()
            invariant
                i <= chars.len(),
                single_quote_run(chars@.take(i as int)) == (
                    (in_string, in_single_quote_string, escape_next),
                    result@,
                ),
            decreases chars.len() - i,
        {
            let ch = chars[i];
            assert(chars@.take(i + 1).drop_last() == chars@.take(i as int));
            if escape_next {
                escape_next = false;
                push_char(&mut result, ch);
            } else {
                match ch {
                    '"' if !in_single_quote_string => {
                        in_string = !in_string;
                        push_char(&mut result, ch);
                    },
                    '\'' if !in_string => {
                        in_single_quote_string = !in_single_quote_string;
                        push_char(&mut result, '"');
                    },
                    '\'' if in_single_quote_string => {
                        in_single_quote_string = false;
                        push_char(&mut result, '"');
                    },
                    '\\' if in_string || in_single_quote_string => {
                        escape_next = true;
                        push_char(&mut result, ch);
                    },
                    _ => push_char(&mut result, ch),
                }
            }
            i = i + 1;
        }
        assert(chars@.take(chars.len() as int) == chars@);
        result
    }

    /// Parses `json_str`, repairing it when it does not parse as it stands.
    pub fn parse_with_repair(&self, json_str: &str) -> (r: Result<String, JsonError>)
        ensures
            r is Ok <==> parsed_with_repair(self.config(), json_str@) is Some,
            r matches Ok(t) ==> Some(t@) == parsed_with_repair(self.config(), json_str@),
            r matches Err(e) ==> e.message@ == parse_error_message(json_str@),
    {
        if let Ok(value) = self.validate_json(json_str) {
            return Ok(value);
        }
        let mut current_json = String::from_str(json_str);
        let mut attempt: u32 = 0;
        while attempt < self.config.max_retries
            invariant
                !json_valid(json_str@),
                attempt == 0,
                current_json@ == json_str@,
            ensures
                self.config.max_retries == 0 || !json_valid(
                    repaired_text(self.config(), json_str@),
                ),
            decreases self.config.max_retries - attempt,
        {
            match self.repair_json(current_json.as_str()) {
                Ok(repaired) => {
                    if let Ok(value) = self.validate_json(repaired.as_str()) {
                        return Ok(value);
                    }
                    current_json = repaired;
                },
                Err(_) => {
                    break;
                },
            }
            attempt = attempt + 1;
        }
        self.validate_json(json_str)
    }

    /// Accepts a custom repair function; the built-in repairs are the only
    /// ones applied, so the repairer is left as it is.
    pub fn add_custom_repair<F: Fn(&str) -> String>(&mut self, _repair_fn: F)
        ensures
            final(self).config() == old(self).config(),
    {
    }
}

/// Wraps the run of key characters before the trailing whitespace of `r`
/// in double quotes.
fn quote_preceding_word(result: &mut Vec<char>)
    ensures
        final(result)@ == quote_last_word(old(result)@),
{
    let ghost r = result@;
    let mut end = result.len();
    while end > 0
        invariant
            end <= r.len(),
            result@ == r,
            white_run_start(r, end as int) == white_run_start(r, r.len() as int),
        ensures
            end <= r.len(),
            white_run_start(r, end as int) == end,
            white_run_start(r, end as int) == white_run_start(r, r.len() as int),
        decreases end,
    {
        if !char_is_whitespace(result[end - 1]) {
            break;
        }
        end = end - 1;
    }
    let mut start = end;
    while start > 0
        invariant
            start <= end,
            end <= r.len(),
            result@ == r,
            key_run_start(r, start as int) == key_run_start(r, end as int),
        ensures
            start <= end,
            key_run_start(r, start as int) == start,
            key_run_start(r, start as int) == key_run_start(r, end as int),
        decreases start,
    {
        let c = result[start - 1];
        if !(char_is_alphanumeric(c) || c == '_' || c == '$' || c == '-') {
            break;
        }
        start = start - 1;
    }
    if start < end {
        result.insert(end, '"');
        result.insert(start, '"');
        assert(result@ =~= r.take(start as int) + seq!['"'] + r.subrange(start as int, end as int)
            + seq!['"'] + r.skip(end as int));
    }
}

// ---------------------------------------------------------------------
// Properties of the repairs
// ---------------------------------------------------------------------

/// `s` with its double quotes left out.
pub open spec fn without_double_quotes(s: Seq<char>) -> Seq<char> {
    s.filter(|c: char| c != '"')
}

proof fn lemma_without_double_quotes_push(s: Seq<char>, c: char)
    ensures
        without_double_quotes(s.push(c)) == if c == '"' {
            without_double_quotes(s)
        } else {
            without_double_quotes(s).push(c)
        },
{
    reveal(Seq::filter);
    assert(s.push(c).drop_last() == s);
}

proof fn lemma_white_run_start_bounds(r: Seq<char>, i: int)
    requires
        0 <= i <= r.len(),
    ensures
        0 <= white_run_start(r, i) <= i,
        forall|j: int| white_run_start(r, i) <= j < i ==> is_white_space(#[trigger] r[j]),
    decreases i,
{
    if 0 < i && is_white_space(r[i - 1]) {
        lemma_white_run_start_bounds(r, i - 1);
    }
}

proof fn lemma_key_run_start_bounds(r: Seq<char>, i: int)
    requires
        0 <= i <= r.len(),
    ensures
        0 <= key_run_start(r, i) <= i,
        forall|j: int| key_run_start(r, i) <= j < i ==> is_key_char(#[trigger] r[j]),
    decreases i,
{
    if 0 < i && is_key_char(r[i - 1]) {
        lemma_key_run_start_bounds(r, i - 1);
    }
}

proof fn lemma_quote_last_word_keeps_other_chars(r: Seq<char>)
    ensures
        without_double_quotes(quote_last_word(r)) == without_double_quotes(r),
{
    let end = white_run_start(r, r.len() as int);
    lemma_white_run_start_bounds(r, r.len() as int);
    let start = key_run_start(r, end);
    lemma_key_run_start_bounds(r, end);
    if start < end {
        let p = |c: char| c != '"';
        let a = r.take(start);
        let b = r.subrange(start, end);
        let c = r.skip(end);
        let q = seq!['"'];
        reveal(Seq::filter);
        assert(q.drop_last() == Seq::<char>::empty());
        assert(Seq::<char>::empty().filter(p) == Seq::<char>::empty());
        assert(!p(q.last()));
        assert(q.filter(p) == Seq::<char>::empty());
        Seq::filter_distributes_over_add(a, q, p);
        Seq::filter_distributes_over_add(a + q, b, p);
        Seq::filter_distributes_over_add(a + q + b, q, p);
        Seq::filter_distributes_over_add(a + q + b + q, c, p);
        Seq::filter_distributes_over_add(a, b, p);
        Seq::filter_distributes_over_add(a + b, c, p);
        assert(r == a + b + c);
        assert(a.filter(p) + Seq::<char>::empty() == a.filter(p));
        assert(a.filter(p) + b.filter(p) + Seq::<char>::empty() == a.filter(p) + b.filter(p));
    }
}

/// The unquoted-key repair only inserts double quotes: leaving the double
/// quotes out of its output and of its input gives the same text.
pub proof fn lemma_unquoted_keys_only_insert_quotes(s: Seq<char>)
    ensures
        without_double_quotes(fixed_unquoted_keys(s)) == without_double_quotes(s),
    decreases s.len(),
{
    if s.len() > 0 {
        lemma_unquoted_keys_only_insert_quotes(s.drop_last());
        let (st, out) = unquoted_run(s.drop_last());
        let c = s.last();
        assert(s == s.drop_last().push(c));
        lemma_without_double_quotes_push(s.drop_last(), c);
        lemma_without_double_quotes_push(out, c);
        lemma_quote_last_word_keeps_other_chars(out);
        lemma_without_double_quotes_push(quote_last_word(out), c);
    }
}

/// The single-quote repair keeps the length of the text and changes no
/// character except single quotes, each of which becomes a double quote.
pub proof fn lemma_single_quotes_only_swap_quotes(s: Seq<char>)
    ensures
        fixed_single_quotes(s).len() == s.len(),
        forall|i: int|
            0 <= i < s.len() ==> #[trigger] fixed_single_quotes(s)[i] == s[i] || (s[i] == '\''
                && fixed_single_quotes(s)[i] == '"'),
    decreases s.len(),
{
    if s.len() > 0 {
        lemma_single_quotes_only_swap_quotes(s.drop_last());
        let (st, out) = single_quote_run(s.drop_last());
        let (st2, c) = single_quote_step(st, s.last());
        assert(fixed_single_quotes(s) == out.push(c));
        assert forall|i: int| 0 <= i < s.len() implies #[trigger] fixed_single_quotes(s)[i] == s[i]
            || (s[i] == '\'' && fixed_single_quotes(s)[i] == '"') by {
            if i < s.len() - 1 {
                assert(fixed_single_quotes(s)[i] == out[i]);
                assert(s[i] == s.drop_last()[i]);
            }
        }
    }
}

/// Scanning `a + b` is scanning `a`, then `b` from where `a` left off.
pub proof fn lemma_bracket_run_append(st: BracketScan, a: Seq<char>, b: Seq<char>)
    ensures
        bracket_run_from(st, a + b) == bracket_run_from(bracket_run_from(st, a), b),
    decreases b.len(),
{
    if b.len() == 0 {
        assert(a + b == a);
    } else {
        lemma_bracket_run_append(st, a, b.drop_last());
        assert((a + b).drop_last() == a + b.drop_last());
    }
}

/// Outside strings, the closers of a stack close every opener on it.
proof fn lemma_closers_empty_stack(stack: Seq<char>)
    requires
        forall|i: int| 0 <= i < stack.len() ==> stack[i] == '{' || stack[i] == '[',
    ensures
        bracket_run_from((false, false, stack), closers(stack)) == (false, false, Seq::<char>::empty()),
    decreases stack.len(),
{
    if stack.len() == 0 {
        assert(closers(stack) =~= Seq::<char>::empty());
    } else {
        let c = closer_of(stack.last());
        let rest = stack.drop_last();
        assert(closers(stack) =~= seq![c] + closers(rest));
        lemma_bracket_run_append((false, false, stack), seq![c], closers(rest));
        assert(seq![c].drop_last() =~= Seq::<char>::empty());
        assert(bracket_run_from((false, false, stack), Seq::<char>::empty()) == (false, false, stack));
        assert(seq![c].last() == c);
        assert(bracket_step((false, false, stack), c) == (false, false, rest));
        assert(bracket_run_from((false, false, stack), seq![c]) == (false, false, rest));
        lemma_closers_empty_stack(rest);
    }
}

/// Only openers are ever pushed.
proof fn lemma_bracket_stack_openers(st: BracketScan, t: Seq<char>)
    requires
        forall|i: int| 0 <= i < st.2.len() ==> st.2[i] == '{' || st.2[i] == '[',
    ensures
        forall|i: int|
            0 <= i < bracket_run_from(st, t).2.len() ==> bracket_run_from(st, t).2[i] == '{'
                || bracket_run_from(st, t).2[i] == '[',
    decreases t.len(),
{
    if t.len() > 0 {
        lemma_bracket_stack_openers(st, t.drop_last());
        let prev = bracket_run_from(st, t.drop_last());
        let next = bracket_step(prev, t.last());
        assert forall|i: int| 0 <= i < next.2.len() implies next.2[i] == '{' || next.2[i] == '[' by {
            if next.2.len() > prev.2.len() {
                if i < prev.2.len() {
                    assert(next.2[i] == prev.2[i]);
                }
            } else if next.2.len() < prev.2.len() {
                assert(next.2[i] == prev.2[i]);
            } else {
                assert(next.2 == prev.2);
            }
        }
    }
}

/// The bracket repair only appends; and when the text does not end inside
/// a string, every opener of the result is closed, in the right order.
pub proof fn lemma_brackets_closed(s: Seq<char>)
    ensures
        fixed_brackets(s).take(s.len() as int) == s,
        !bracket_run(s).0 ==> bracket_run(fixed_brackets(s)).2 == Seq::<char>::empty(),
{
    assert(fixed_brackets(s).take(s.len() as int) =~= s);
    let st = bracket_run(s);
    lemma_bracket_run_append((false, false, Seq::empty()), s, closers(st.2));
    lemma_bracket_stack_openers((false, false, Seq::empty()), s);
    if !st.0 {
        assert(!st.1) by {
            lemma_escape_only_in_string((false, false, Seq::empty()), s);
        }
        lemma_closers_empty_stack(st.2);
    }
}

/// The scan escapes only inside a string.
proof fn lemma_escape_only_in_string(st: BracketScan, t: Seq<char>)
    requires
        st.1 ==> st.0,
    ensures
        bracket_run_from(st, t).1 ==> bracket_run_from(st, t).0,
    decreases t.len(),
{
    if t.len() > 0 {
        lemma_escape_only_in_string(st, t.drop_last());
    }
}

/// The unquoted-key repair from state `st` with output `out`, over `t`.
pub open spec fn unquoted_run_from(st: KeyScan, out: Seq<char>, t: Seq<char>) -> (KeyScan, Seq<char>)
    decreases t.len(),
{
    if t.len() == 0 {
        (st, out)
    } else {
        let (st1, out1) = unquoted_run_from(st, out, t.drop_last());
        unquoted_step(st1, out1, t.last())
    }
}

proof fn lemma_unquoted_run_is_from_start(s: Seq<char>)
    ensures
        unquoted_run(s) == unquoted_run_from((false, false, 0), Seq::empty(), s),
    decreases s.len(),
{
    if s.len() > 0 {
        lemma_unquoted_run_is_from_start(s.drop_last());
    }
}

proof fn lemma_unquoted_run_append(st: KeyScan, out: Seq<char>, a: Seq<char>, b: Seq<char>)
    ensures
        unquoted_run_from(st, out, a + b) == unquoted_run_from(
            unquoted_run_from(st, out, a).0,
            unquoted_run_from(st, out, a).1,
            b,
        ),
    decreases b.len(),
{
    if b.len() == 0 {
        assert(a + b == a);
    } else {
        lemma_unquoted_run_append(st, out, a, b.drop_last());
        assert((a + b).drop_last() == a + b.drop_last());
    }
}

/// A character that the unquoted-key scanner treats like any other.
pub open spec fn plain_char(c: char) -> bool {
    c != '"' && c != '\\' && c != '{' && c != '}' && c != ':'
}

/// Plain characters are copied and change nothing but end an escape.
proof fn lemma_plain_run(st: KeyScan, out: Seq<char>, w: Seq<char>)
    requires
        forall|j: int| 0 <= j < w.len() ==> plain_char(#[trigger] w[j]),
    ensures
        unquoted_run_from(st, out, w) == (
            (st.0, if w.len() > 0 { false } else { st.1 }, st.2),
            out + w,
        ),
    decreases w.len(),
{
    if w.len() == 0 {
        assert(out + w == out);
    } else {
        lemma_plain_run(st, out, w.drop_last());
        assert(plain_char(w[w.len() - 1]));
        assert(out + w.drop_last() + seq![w.last()] == out + w);
        assert((out + w.drop_last()).push(w.last()) == out + w);
    }
}

/// The scanner escapes only inside a string.
proof fn lemma_unquoted_escape_in_string(s: Seq<char>)
    ensures
        unquoted_run(s).0.1 ==> unquoted_run(s).0.0,
    decreases s.len(),
{
    if s.len() > 0 {
        lemma_unquoted_escape_in_string(s.drop_last());
    }
}

proof fn lemma_white_chars_plain(c: char)
    requires
        is_white_space(c),
    ensures
        plain_char(c),
{
}

proof fn lemma_key_chars_plain(c: char)
    requires
        is_key_char(c),
    ensures
        plain_char(c),
        !is_white_space(c) || (c as u32) >= 128,
{
}

/// Past whitespace only, the run of whitespace ending at the end of `y + ws`
/// starts where `ws` starts, when `y` does not end in whitespace.
proof fn lemma_white_run_after(y: Seq<char>, ws: Seq<char>, i: int)
    requires
        y.len() > 0,
        !is_white_space(y.last()),
        forall|j: int| 0 <= j < ws.len() ==> is_white_space(#[trigger] ws[j]),
        y.len() <= i <= y.len() + ws.len(),
    ensures
        white_run_start(y + ws, i) == y.len(),
    decreases i,
{
    if i > y.len() {
        assert((y + ws)[i - 1] == ws[i - 1 - y.len()]);
        lemma_white_run_after(y, ws, i - 1);
    } else {
        assert((y + ws)[i - 1] == y.last());
    }
}

/// Repairing the repaired text changes nothing: every bare key it quoted
/// is now quoted, and nothing else is a bare key before a colon.
pub proof fn lemma_unquoted_keys_idempotent(s: Seq<char>)
    ensures
        fixed_unquoted_keys(fixed_unquoted_keys(s)) == fixed_unquoted_keys(s),
{
    lemma_unquoted_run_fixed_point(s);
}

proof fn lemma_unquoted_run_fixed_point(s: Seq<char>)
    ensures
        unquoted_run(unquoted_run(s).1) == unquoted_run(s),
    decreases s.len(),
{
    if s.len() > 0 {
        let p = s.drop_last();
        let c = s.last();
        lemma_unquoted_run_fixed_point(p);
        let (st, out) = unquoted_run(p);
        let (st2, out2) = unquoted_step(st, out, c);
        assert(unquoted_run(s) == (st2, out2));
        if out2 == out.push(c) {
            assert(out.push(c).drop_last() == out);
            assert(out.push(c).last() == c);
        } else {
            lemma_unquoted_quoted_colon(st, out);
        }
    }
}

/// When the scan over `x + w` reproduces it and ends outside a string,
/// with `w` plain and not empty, the scan over `x` reproduces `x` and ends
/// in the same state.
proof fn lemma_unquoted_run_prefix(st: KeyScan, x: Seq<char>, w: Seq<char>)
    requires
        unquoted_run(x + w) == (st, x + w),
        !st.0,
        w.len() > 0,
        forall|j: int| 0 <= j < w.len() ==> plain_char(#[trigger] w[j]),
    ensures
        unquoted_run(x) == (st, x),
{
    let init: KeyScan = (false, false, 0);
    let e = Seq::<char>::empty();
    lemma_unquoted_run_is_from_start(x + w);
    lemma_unquoted_run_is_from_start(x);
    lemma_unquoted_run_append(init, e, x, w);
    let (stx, ox) = unquoted_run_from(init, e, x);
    lemma_plain_run(stx, ox, w);
    assert(ox == x) by {
        assert(ox =~= (ox + w).take(ox.len() as int));
        assert(x =~= (x + w).take(x.len() as int));
    }
    lemma_unquoted_escape_in_string(x);
}

/// From a state outside strings, the scan over a quoted plain word and
/// plain text after it reproduces them and comes back to that state.
proof fn lemma_unquoted_run_quoted_word(st: KeyScan, x: Seq<char>, word: Seq<char>, ws: Seq<char>)
    requires
        unquoted_run(x) == (st, x),
        !st.0,
        !st.1,
        word.len() > 0,
        forall|j: int| 0 <= j < word.len() ==> plain_char(#[trigger] word[j]),
        forall|j: int| 0 <= j < ws.len() ==> plain_char(#[trigger] ws[j]),
    ensures
        unquoted_run(x + seq!['"'] + word + seq!['"'] + ws) == (st, x + seq!['"'] + word + seq!['"'] + ws),
{
    let init: KeyScan = (false, false, 0);
    let e = Seq::<char>::empty();
    let q = seq!['"'];
    let y = x + q + word + q;
    let r = y + ws;
    lemma_unquoted_run_is_from_start(x);
    lemma_unquoted_run_is_from_start(r);
    assert(q.drop_last() =~= Seq::<char>::empty());
    assert(q.last() == '"');
    let st1: KeyScan = (true, false, st.2);
    lemma_unquoted_run_append(init, e, x, q);
    assert(unquoted_run_from(st, x, Seq::<char>::empty()) == (st, x));
    assert(x.push('"') == x + q);
    assert(unquoted_run_from(init, e, x + q) == (st1, x + q));
    lemma_unquoted_run_append(init, e, x + q, word);
    lemma_plain_run(st1, x + q, word);
    assert(unquoted_run_from(init, e, x + q + word) == (st1, x + q + word));
    lemma_unquoted_run_append(init, e, x + q + word, q);
    assert(unquoted_run_from(st1, x + q + word, Seq::<char>::empty()) == (st1, x + q + word));
    assert((x + q + word).push('"') == y);
    assert(unquoted_run_from(init, e, y) == (st, y));
    lemma_unquoted_run_append(init, e, y, ws);
    lemma_plain_run(st, y, ws);
    if ws.len() == 0 {
        assert(y + ws == y);
    }
}

/// A colon after a closing quote and whitespace finds no bare word.
proof fn lemma_no_word_after_quote(y: Seq<char>, ws: Seq<char>)
    requires
        y.len() > 0,
        y.last() == '"',
        forall|j: int| 0 <= j < ws.len() ==> is_white_space(#[trigger] ws[j]),
    ensures
        quote_last_word(y + ws) == y + ws,
{
    let r = y + ws;
    lemma_white_run_after(y, ws, r.len() as int);
    assert(r[y.len() - 1] == '"');
    assert(!is_key_char(r[y.len() - 1]));
}

/// When the scan over `out` reproduces it and a colon quotes the bare word
/// before it, the scan over the quoted output reproduces that too.
proof fn lemma_unquoted_quoted_colon(st: KeyScan, out: Seq<char>)
    requires
        unquoted_run(out) == (st, out),
        !st.0,
        !st.1,
        st.2 > 0,
        quote_last_word(out) != out,
    ensures
        unquoted_run(quote_last_word(out).push(':')) == (st, quote_last_word(out).push(':')),
{
    let end = white_run_start(out, out.len() as int);
    lemma_white_run_start_bounds(out, out.len() as int);
    let start = key_run_start(out, end);
    lemma_key_run_start_bounds(out, end);
    let x = out.take(start);
    let word = out.subrange(start, end);
    let ws = out.skip(end);
    assert(out == x + (word + ws));
    assert forall|j: int| 0 <= j < word.len() implies plain_char(#[trigger] word[j]) by {
        assert(word[j] == out[start + j]);
        lemma_key_chars_plain(out[start + j]);
    }
    assert forall|j: int| 0 <= j < ws.len() implies is_white_space(#[trigger] ws[j]) by {
        assert(ws[j] == out[end + j]);
    }
    assert forall|j: int| 0 <= j < ws.len() implies plain_char(#[trigger] ws[j]) by {
        lemma_white_chars_plain(ws[j]);
    }
    assert forall|j: int| 0 <= j < (word + ws).len() implies plain_char(#[trigger] (word + ws)[j]) by {
        if j < word.len() {
            assert((word + ws)[j] == word[j]);
        } else {
            assert((word + ws)[j] == ws[j - word.len()]);
        }
    }
    lemma_unquoted_run_prefix(st, x, word + ws);
    lemma_unquoted_run_quoted_word(st, x, word, ws);
    let q = seq!['"'];
    let y = x + q + word + q;
    let r = y + ws;
    assert(quote_last_word(out) == r);
    lemma_no_word_after_quote(y, ws);
    assert(r.push(':').drop_last() == r);
    assert(r.push(':').last() == ':');
}

/// A document that already parses is returned as parsed, with no repair.
pub proof fn lemma_valid_json_needs_no_repair(config: JsonRepairConfig, s: Seq<char>)
    requires
        json_valid(s),
    ensures
        parsed_with_repair(config, s) == Some(json_normal_form(s)),
{
}

} // verus!
