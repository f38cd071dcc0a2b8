//! Validators for branch names, search patterns, alias names and repository
//! paths. Each validator applies its rules in a fixed order and reports the
//! first rule that the input breaks.

use vstd::prelude::*;
use vstd::utf8::encode_utf8;
use crate::constants::{
    MAX_ALIAS_LENGTH, MAX_BRANCH_NAME_LENGTH, MAX_PATTERN_LENGTH, MAX_REPO_PATH_LENGTH,
};
use crate::error::GgoError;
use crate::text::{
    chars_of, contains, contains_char, contains_seq, decimal, decimal_string, has_char,
};

verus! {

/// The rule that an input broke.
#[derive(Clone, Copy, Debug, PartialEq, Eq, Structural)]
pub enum ValidationError {
    /// The input is the empty string.
    Empty,
    /// The input is longer, in bytes, than its kind allows.
    TooLong,
    /// A null, newline or carriage-return character occurs.
    ControlCharacter,
    /// The first character is `-`.
    LeadingDash,
    /// The first character is `.`.
    LeadingDot,
    /// Two dots in a row occur.
    DoubleDot,
    /// The last character is `/`.
    TrailingSlash,
    /// The last character is `.`.
    TrailingDot,
    /// Two slashes in a row occur.
    DoubleSlash,
    /// A space occurs.
    Space,
    /// Both `@` and `{` occur.
    RevisionBrace,
    /// `~` occurs.
    Tilde,
    /// `^` occurs.
    Caret,
    /// `:` occurs.
    Colon,
    /// One of `?`, `*`, `[` occurs.
    Wildcard,
    /// A null character occurs.
    NullByte,
    /// The path does not start at the root.
    NotAbsolute,
    /// Nothing exists at the path.
    Missing,
    /// What exists at the path is not a directory.
    NotDirectory,
    /// The alias is one of the command words.
    Reserved,
    /// A character other than a letter, a digit, `-` or `_` occurs.
    IllegalCharacter,
}

/// Length of a string in bytes of UTF-8.
pub open spec fn byte_len(s: Seq<char>) -> nat {
    encode_utf8(s).len()
}

/// Whether `s` starts with the character `c`.
pub open spec fn starts_with_char(s: Seq<char>, c: char) -> bool {
    s.len() > 0 && s[0] == c
}

/// Whether `s` ends with the character `c`.
pub open spec fn ends_with_char(s: Seq<char>, c: char) -> bool {
    s.len() > 0 && s[s.len() - 1] == c
}

/// The first rule for branch names that `name` breaks, if any.
pub open spec fn branch_name_fault(name: Seq<char>) -> Option<ValidationError> {
    if name.len() == 0 {
        Some(ValidationError::Empty)
    } else if byte_len(name) > MAX_BRANCH_NAME_LENGTH {
        Some(ValidationError::TooLong)
    } else if has_char(name, '\0') || has_char(name, '\n') || has_char(name, '\r') {
        Some(ValidationError::ControlCharacter)
    } else if starts_with_char(name, '-') {
        Some(ValidationError::LeadingDash)
    } else if starts_with_char(name, '.') {
        Some(ValidationError::LeadingDot)
    } else if contains_seq(name, seq!['.', '.']) {
        Some(ValidationError::DoubleDot)
    } else if ends_with_char(name, '/') {
        Some(ValidationError::TrailingSlash)
    } else if ends_with_char(name, '.') {
        Some(ValidationError::TrailingDot)
    } else if contains_seq(name, seq!['/', '/']) {
        Some(ValidationError::DoubleSlash)
    } else if has_char(name, ' ') {
        Some(ValidationError::Space)
    } else if has_char(name, '@') && has_char(name, '{') {
        Some(ValidationError::RevisionBrace)
    } else if has_char(name, '~') {
        Some(ValidationError::Tilde)
    } else if has_char(name, '^') {
        Some(ValidationError::Caret)
    } else if has_char(name, ':') {
        Some(ValidationError::Colon)
    } else if has_char(name, '?') || has_char(name, '*') || has_char(name, '[') {
        Some(ValidationError::Wildcard)
    } else {
        None
    }
}

/// The first rule for search patterns that `pattern` breaks, if any. The
/// empty pattern is valid: it matches every branch.
pub open spec fn pattern_fault(pattern: Seq<char>) -> Option<ValidationError> {
    if byte_len(pattern) > MAX_PATTERN_LENGTH {
        Some(ValidationError::TooLong)
    } else if has_char(pattern, '\0') {
        Some(ValidationError::NullByte)
    } else {
        None
    }
}

/// Whether `alias` is one of the words that name a command.
pub open spec fn is_reserved_word(alias: Seq<char>) -> bool {
    alias == seq!['s', 't', 'a', 't', 's'] || alias == seq!['a', 'l', 'i', 'a', 's'] || alias
        == seq!['l', 'i', 's', 't'] || alias == seq!['r', 'e', 'm', 'o', 'v', 'e']
}

/// Whether `c` may occur in an alias name.
pub open spec fn is_alias_char(c: char) -> bool {
    is_alphanumeric(c) || c == '-' || c == '_'
}

/// The first rule for alias names that `alias` breaks, if any.
pub open spec fn alias_name_fault(alias: Seq<char>) -> Option<ValidationError> {
    if alias.len() == 0 {
        Some(ValidationError::Empty)
    } else if byte_len(alias) > MAX_ALIAS_LENGTH {
        Some(ValidationError::TooLong)
    } else if starts_with_char(alias, '-') {
        Some(ValidationError::LeadingDash)
    } else if is_reserved_word(alias) {
        Some(ValidationError::Reserved)
    } else if exists|i: int| 0 <= i < alias.len() && !is_alias_char(#[trigger] alias[i]) {
        Some(ValidationError::IllegalCharacter)
    } else {
        None
    }
}

/// The first rule for repository paths that `path` breaks, if any, given
/// whether something exists at the path and whether that is a directory.
pub open spec fn repo_path_fault(path: Seq<char>, exists: bool, is_dir: bool) -> Option<
    ValidationError,
> {
    if path.len() == 0 {
        Some(ValidationError::Empty)
    } else if byte_len(path) > MAX_REPO_PATH_LENGTH {
        Some(ValidationError::TooLong)
    } else if has_char(path, '\0') {
        Some(ValidationError::NullByte)
    } else if !starts_with_char(path, '/') {
        Some(ValidationError::NotAbsolute)
    } else if !exists {
        Some(ValidationError::Missing)
    } else if !is_dir {
        Some(ValidationError::NotDirectory)
    } else {
        None
    }
}

/// The outcome of a validator whose first broken rule is `fault`.
pub open spec fn verdict(fault: Option<ValidationError>) -> Result<(), ValidationError> {
    match fault {
        Some(e) => Err(e),
        None => Ok(()),
    }
}

/// What `char::is_alphanumeric` answers for a character: whether Unicode
/// classes it as alphabetic or numeric.
pub uninterp spec fn is_alphanumeric(c: char) -> bool;

/// Asks `char::is_alphanumeric`. Its answer is a function of the character
/// alone; below U+0080 it is true exactly of the ASCII letters and digits.
#[verifier::external_body]
fn char_is_alphanumeric(c: char) -> (yes: bool)
    ensures
        yes == is_alphanumeric(c),
        (c as u32) < 128 ==> (yes <==> (('a' <= c && c <= 'z') || ('A' <= c && c <= 'Z') || ('0'
            <= c && c <= '9'))),
{
    c.is_alphanumeric()
}

/// Asks `Path::exists` whether anything is found at `path`. The answer
/// depends on the file system at the time of the call.
#[verifier::external_body]
fn path_exists(path: &str) -> bool {
    std::path::Path::new(path).exists()
}

/// Asks `Path::is_dir` whether a directory is found at `path`. The answer
/// depends on the file system at the time of the call.
#[verifier::external_body]
fn path_is_dir(path: &str) -> bool {
    std::path::Path::new(path).is_dir()
}

/// Length of a string in bytes of UTF-8.
fn byte_length(s: &str) -> (n: usize)
    ensures
        n == byte_len(s@),
{
    s.as_bytes().len()
}

/// Whether the characters are exactly those of `word`.
fn same_text(chars: &Vec<char>, word: &str) -> (same: bool)
    ensures
        same == (chars@ == word@),
{
    let other = chars_of(word);
    if chars.len() != other.len() {
        return false;
    }
    let mut i: usize = 0;
    while i < chars.len()
        invariant
            i <= chars@.len(),
            chars@.len() == other@.len(),
            other@ == word@,
            forall|j: int| 0 <= j < i ==> chars@[j] == other@[j],
        decreases chars@.len() - i,
    {
        if chars[i] != other[i] {
            return false;
        }
        i += 1;
    }
    proof {
        assert(chars@ =~= other@);
    }
    true
}

/// Checks a branch name against git's rules for reference names and against
/// what would be read as a flag or a revision expression.
pub fn validate_branch_name(name: &str) -> (outcome: Result<(), ValidationError>)
    ensures
        outcome == verdict(branch_name_fault(name@)),
{
    let chars = chars_of(name);
    let n: usize = chars.len();
    if n == 0 {
        return Err(ValidationError::Empty);
    }
    if byte_length(name) > MAX_BRANCH_NAME_LENGTH {
        return Err(ValidationError::TooLong);
    }
    if contains_char(&chars, '\0') || contains_char(&chars, '\n') || contains_char(&chars, '\r') {
        return Err(ValidationError::ControlCharacter);
    }
    if chars[0] == '-' {
        return Err(ValidationError::LeadingDash);
    }
    if chars[0] == '.' {
        return Err(ValidationError::LeadingDot);
    }
    let dots: Vec<char> = vec!['.', '.'];
    if contains(&chars, &dots) {
        return Err(ValidationError::DoubleDot);
    }
    if chars[n - 1] == '/' {
        return Err(ValidationError::TrailingSlash);
    }
    if chars[n - 1] == '.' {
        return Err(ValidationError::TrailingDot);
    }
    let slashes: Vec<char> = vec!['/', '/'];
    if contains(&chars, &slashes) {
        return Err(ValidationError::DoubleSlash);
    }
    if contains_char(&chars, ' ') {
        return Err(ValidationError::Space);
    }
    if contains_char(&chars, '@') && contains_char(&chars, '{') {
        return Err(ValidationError::RevisionBrace);
    }
    if contains_char(&chars, '~') {
        return Err(ValidationError::Tilde);
    }
    if contains_char(&chars, '^') {
        return Err(ValidationError::Caret);
    }
    if contains_char(&chars, ':') {
        return Err(ValidationError::Colon);
    }
    if contains_char(&chars, '?') || contains_char(&chars, '*') || contains_char(&chars, '[') {
        return Err(ValidationError::Wildcard);
    }
    Ok(())
}

/// Checks a search pattern: any text of bounded length without a null
/// character, the empty text included.
pub fn validate_pattern(pattern: &str) -> (outcome: Result<(), ValidationError>)
    ensures
        outcome == verdict(pattern_fault(pattern@)),
{
    if byte_length(pattern) > MAX_PATTERN_LENGTH {
        return Err(ValidationError::TooLong);
    }
    let chars = chars_of(pattern);
    if contains_char(&chars, '\0') {
        return Err(ValidationError::NullByte);
    }
    Ok(())
}

/// Checks an alias name: short, not a command word, not flag-like, and made
/// of letters, digits, `-` and `_` only.
#[verifier::loop_isolation(false)]
pub fn validate_alias_name(alias: &str) -> (outcome: Result<(), ValidationError>)
    ensures
        outcome == verdict(alias_name_fault(alias@)),
{
    let chars = chars_of(alias);
    if chars.len() == 0 {
        return Err(ValidationError::Empty);
    }
    if byte_length(alias) > MAX_ALIAS_LENGTH {
        return Err(ValidationError::TooLong);
    }
    if chars[0] == '-' {
        return Err(ValidationError::LeadingDash);
    }
    proof {
        reveal_strlit("stats");
        reveal_strlit("alias");
        reveal_strlit("list");
        reveal_strlit("remove");
        assert("stats"@ =~= seq!['s', 't', 'a', 't', 's']);
        assert("alias"@ =~= seq!['a', 'l', 'i', 'a', 's']);
        assert("list"@ =~= seq!['l', 'i', 's', 't']);
        assert("remove"@ =~= seq!['r', 'e', 'm', 'o', 'v', 'e']);
    }
    if same_text(&chars, "stats") || same_text(&chars, "alias") || same_text(&chars, "list")
        || same_text(&chars, "remove") {
        return Err(ValidationError::Reserved);
    }
    let mut i: usize = 0;
    while i < chars.len()
        invariant
            i <= chars@.len(),
            forall|j: int| 0 <= j < i ==> is_alias_char(#[trigger] chars@[j]),
        decreases chars@.len() - i,
    {
        let c: char = chars[i];
        if !(char_is_alphanumeric(c) || c == '-' || c == '_') {
            return Err(ValidationError::IllegalCharacter);
        }
        i += 1;
    }
    Ok(())
}

/// Checks a repository path against the rules, given what the file system
/// holds at it: `exists` says whether anything is there, `is_dir` whether it
/// is a directory.
pub fn check_repo_path(path: &str, exists: bool, is_dir: bool) -> (outcome: Result<
    (),
    ValidationError,
>)
    ensures
        outcome == verdict(repo_path_fault(path@, exists, is_dir)),
{
    let chars = chars_of(path);
    if chars.len() == 0 {
        return Err(ValidationError::Empty);
    }
    if byte_length(path) > MAX_REPO_PATH_LENGTH {
        return Err(ValidationError::TooLong);
    }
    if contains_char(&chars, '\0') {
        return Err(ValidationError::NullByte);
    }
    if chars[0] != '/' {
        return Err(ValidationError::NotAbsolute);
    }
    if !exists {
        return Err(ValidationError::Missing);
    }
    if !is_dir {
        return Err(ValidationError::NotDirectory);
    }
    Ok(())
}

/// Checks a repository path: non-empty, bounded, free of null characters,
/// absolute, and naming a directory that exists. The first four rules are
/// decided by the text alone; the file system is asked only for the last.
pub fn validate_repo_path(path: &str) -> (outcome: Result<(), ValidationError>)
    ensures
        exists|found: bool, dir: bool| outcome == verdict(repo_path_fault(path@, found, dir)),
        repo_path_fault(path@, false, false) != Some(ValidationError::Missing) ==> outcome
            == verdict(repo_path_fault(path@, false, false)),
{
    let textual = check_repo_path(path, true, true);
    if textual.is_err() {
        proof {
            assert(textual == verdict(repo_path_fault(path@, true, true)));
        }
        return textual;
    }
    let found = path_exists(path);
    let dir = path_is_dir(path);
    check_repo_path(path, found, dir)
}

/// The kind of name that a validator checks.
#[derive(Clone, Copy, Debug, PartialEq, Eq, Structural)]
pub enum NameKind {
    Branch,
    Pattern,
    Alias,
    RepoPath,
}

/// How a kind of name is called in a report.
pub open spec fn kind_words(kind: NameKind) -> Seq<char> {
    match kind {
        NameKind::Branch => "Branch name"@,
        NameKind::Pattern => "Search pattern"@,
        NameKind::Alias => "Alias name"@,
        NameKind::RepoPath => "Repository path"@,
    }
}

/// The longest name of a kind, in bytes.
pub open spec fn kind_limit(kind: NameKind) -> int {
    match kind {
        NameKind::Branch => MAX_BRANCH_NAME_LENGTH as int,
        NameKind::Pattern => MAX_PATTERN_LENGTH as int,
        NameKind::Alias => MAX_ALIAS_LENGTH as int,
        NameKind::RepoPath => MAX_REPO_PATH_LENGTH as int,
    }
}

/// What a report says of a broken rule, after the kind of name.
pub open spec fn rule_words(kind: NameKind, error: ValidationError, value: Seq<char>) -> Seq<char> {
    match error {
        ValidationError::Empty => " cannot be empty"@,
        ValidationError::TooLong => " too long (max "@ + decimal(kind_limit(kind))
            + " characters)"@,
        ValidationError::ControlCharacter => {
            " contains invalid characters (null, newline, or carriage return)"@
        },
        ValidationError::LeadingDash => if kind == NameKind::Alias {
            " cannot start with '-' (conflicts with command flags)"@
        } else {
            " cannot start with '-' (conflicts with git flags)"@
        },
        ValidationError::LeadingDot => " cannot start with '.'"@,
        ValidationError::DoubleDot => " cannot contain '..' (git path traversal restriction)"@,
        ValidationError::TrailingSlash => " cannot end with '/'"@,
        ValidationError::TrailingDot => " cannot end with '.'"@,
        ValidationError::DoubleSlash => " cannot contain '//' (double slashes)"@,
        ValidationError::Space => " cannot contain spaces"@,
        ValidationError::RevisionBrace => " cannot contain '@{' (git revision syntax)"@,
        ValidationError::Tilde => " cannot contain '~' (git revision syntax)"@,
        ValidationError::Caret => " cannot contain '^' (git revision syntax)"@,
        ValidationError::Colon => " cannot contain ':' (git ref syntax)"@,
        ValidationError::Wildcard => " cannot contain wildcards (?, *, [)"@,
        ValidationError::NullByte => " contains null bytes"@,
        ValidationError::NotAbsolute => " must be absolute (got relative path)"@,
        ValidationError::Missing => " does not exist: "@ + value,
        ValidationError::NotDirectory => " is not a directory: "@ + value,
        ValidationError::Reserved => " '"@ + value + "' is reserved and cannot be used"@,
        ValidationError::IllegalCharacter => {
            " must contain only alphanumeric characters, dash (-), or underscore (_)"@
        },
    }
}

/// The reason that a report gives for a rejected name.
pub open spec fn reason_words(kind: NameKind, error: ValidationError, value: Seq<char>) -> Seq<
    char,
> {
    kind_words(kind) + rule_words(kind, error, value)
}

/// Whether `report` is the error for a name of kind `kind` with the text
/// `value` that broke the rule `error`.
pub open spec fn is_report(report: GgoError, kind: NameKind, value: Seq<char>, error: ValidationError)
    -> bool {
    match kind {
        NameKind::Branch => report matches GgoError::InvalidBranchName(v, r) && v@ == value && r@
            == reason_words(kind, error, value),
        NameKind::Pattern => report matches GgoError::InvalidPattern(v, r) && v@ == value && r@
            == reason_words(kind, error, value),
        NameKind::Alias => report matches GgoError::InvalidAliasName(v, r) && v@ == value && r@
            == reason_words(kind, error, value),
        NameKind::RepoPath => report matches GgoError::InvalidRepoPath(v, r) && v@ == value && r@
            == reason_words(kind, error, value),
    }
}

/// The reason for rejecting the name `value` of kind `kind`, in words.
pub fn reason(kind: NameKind, error: ValidationError, value: &str) -> (words: String)
    ensures
        words@ == reason_words(kind, error, value@),
{
    let mut words = match kind {
        NameKind::Branch => "Branch name".to_owned(),
        NameKind::Pattern => "Search pattern".to_owned(),
        NameKind::Alias => "Alias name".to_owned(),
        NameKind::RepoPath => "Repository path".to_owned(),
    };
    match error {
        ValidationError::Empty => words.append(" cannot be empty"),
        ValidationError::TooLong => {
            let limit: usize = match kind {
                NameKind::Branch => MAX_BRANCH_NAME_LENGTH,
                NameKind::Pattern => MAX_PATTERN_LENGTH,
                NameKind::Alias => MAX_ALIAS_LENGTH,
                NameKind::RepoPath => MAX_REPO_PATH_LENGTH,
            };
            let number = decimal_string(limit as i64);
            words.append(" too long (max ");
            words.append(number.as_str());
            words.append(" characters)");
        },
        ValidationError::ControlCharacter => words.append(
            " contains invalid characters (null, newline, or carriage return)",
        ),
        ValidationError::LeadingDash => {
            if kind == NameKind::Alias {
                words.append(" cannot start with '-' (conflicts with command flags)");
            } else {
                words.append(" cannot start with '-' (conflicts with git flags)");
            }
        },
        ValidationError::LeadingDot => words.append(" cannot start with '.'"),
        ValidationError::DoubleDot => words.append(
            " cannot contain '..' (git path traversal restriction)",
        ),
        ValidationError::TrailingSlash => words.append(" cannot end with '/'"),
        ValidationError::TrailingDot => words.append(" cannot end with '.'"),
        ValidationError::DoubleSlash => words.append(" cannot contain '//' (double slashes)"),
        ValidationError::Space => words.append(" cannot contain spaces"),
        ValidationError::RevisionBrace => words.append(
            " cannot contain '@{' (git revision syntax)",
        ),
        ValidationError::Tilde => words.append(" cannot contain '~' (git revision syntax)"),
        ValidationError::Caret => words.append(" cannot contain '^' (git revision syntax)"),
        ValidationError::Colon => words.append(" cannot contain ':' (git ref syntax)"),
        ValidationError::Wildcard => words.append(" cannot contain wildcards (?, *, [)"),
        ValidationError::NullByte => words.append(" contains null bytes"),
        ValidationError::NotAbsolute => words.append(" must be absolute (got relative path)"),
        ValidationError::Missing => {
            words.append(" does not exist: ");
            words.append(value);
        },
        ValidationError::NotDirectory => {
            words.append(" is not a directory: ");
            words.append(value);
        },
        ValidationError::Reserved => {
            words.append(" '");
            words.append(value);
            words.append("' is reserved and cannot be used");
        },
        ValidationError::IllegalCharacter => words.append(
            " must contain only alphanumeric characters, dash (-), or underscore (_)",
        ),
    }
    proof {
        assert(words@ =~= reason_words(kind, error, value@));
    }
    words
}

/// The error that reports the name `value` of kind `kind` as rejected for
/// breaking the rule `error`.
pub fn invalid_name(kind: NameKind, value: &str, error: ValidationError) -> (report: GgoError)
    ensures
        is_report(report, kind, value@, error),
{
    let words = reason(kind, error, value);
    match kind {
        NameKind::Branch => GgoError::InvalidBranchName(value.to_owned(), words),
        NameKind::Pattern => GgoError::InvalidPattern(value.to_owned(), words),
        NameKind::Alias => GgoError::InvalidAliasName(value.to_owned(), words),
        NameKind::RepoPath => GgoError::InvalidRepoPath(value.to_owned(), words),
    }
}

} // verus!