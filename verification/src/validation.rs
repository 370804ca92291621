//! Validated wrappers around user-supplied strings.
//!
//! Each wrapper admits exactly the strings its validity predicate accepts;
//! the constructor's contract states that predicate, and `value` returns
//! the stored text unchanged (for URLs, in canonical form).

use vstd::prelude::*;
use vstd::string::StringSliceAdditionalSpecFns;

verus! {

/// Why a string was rejected; the carried message is informational.
#[derive(Debug)]
pub enum ValidationError {
    InvalidUserName(String),
    InvalidPassword(String),
    InvalidEmail(String),
    InvalidFilePath(String),
    InvalidYouTubeUrl(String),
    InvalidName(String),
}

/// An ASCII letter.
pub open spec fn is_ascii_letter(c: char) -> bool {
    ('A' as u32 <= c as u32 && c as u32 <= 'Z' as u32) || ('a' as u32 <= c as u32 && c as u32
        <= 'z' as u32)
}

/// An ASCII digit.
pub open spec fn is_ascii_digit(c: char) -> bool {
    '0' as u32 <= c as u32 && c as u32 <= '9' as u32
}

/// A character a username may contain.
pub open spec fn is_username_char(c: char) -> bool {
    is_ascii_letter(c) || is_ascii_digit(c) || c == '_'
}

/// A username: 3 to 16 characters, letters, digits and underscores only.
pub open spec fn valid_username(s: Seq<char>) -> bool {
    &&& 3 <= s.len() <= 16
    &&& forall|i: int| 0 <= i < s.len() ==> is_username_char(#[trigger] s[i])
}

/// A character a display name may contain.
pub open spec fn is_name_char(c: char) -> bool {
    is_ascii_letter(c) || is_ascii_digit(c) || c == '_' || c == ' '
}

/// A display name: 3 to 16 characters from letters, digits, underscores and
/// spaces, with no leading or trailing space.
pub open spec fn valid_name(s: Seq<char>) -> bool {
    &&& 3 <= s.len() <= 16
    &&& forall|i: int| 0 <= i < s.len() ==> is_name_char(#[trigger] s[i])
    &&& s[0] != ' '
    &&& s[s.len() - 1] != ' '
}

/// A character a file path may contain.
pub open spec fn is_path_char(c: char) -> bool {
    is_ascii_letter(c) || is_ascii_digit(c) || c == '_' || c == '-' || c == '.' || c == '/' || c
        == '\\'
}

/// A file path: non-empty, from letters, digits and `_ - . / \`.
pub open spec fn valid_file_path(s: Seq<char>) -> bool {
    &&& s.len() >= 1
    &&& forall|i: int| 0 <= i < s.len() ==> is_path_char(#[trigger] s[i])
}

fn username_char(c: char) -> (r: bool)
    ensures
        r == is_username_char(c),
{
    let u = c as u32;
    ('A' as u32 <= u && u <= 'Z' as u32) || ('a' as u32 <= u && u <= 'z' as u32) || ('0' as u32
        <= u && u <= '9' as u32) || c == '_'
}

fn name_char(c: char) -> (r: bool)
    ensures
        r == is_name_char(c),
{
    username_char(c) || c == ' '
}

fn path_char(c: char) -> (r: bool)
    ensures
        r == is_path_char(c),
{
    username_char(c) || c == '-' || c == '.' || c == '/' || c == '\\'
}

/// Whether Unicode classes the character as a letter.
pub uninterp spec fn char_alphabetic(c: char) -> bool;

/// Whether Unicode classes the character as numeric.
pub uninterp spec fn char_numeric(c: char) -> bool;

/// Whether Unicode classes the character as alphanumeric.
pub uninterp spec fn char_alphanumeric(c: char) -> bool;

/// Whether Unicode classes the character as whitespace.
pub uninterp spec fn char_whitespace(c: char) -> bool;

/// Relies on char::is_alphabetic: the result depends on the character alone.
#[verifier::external_body]
fn alphabetic(c: char) -> (r: bool)
    ensures
        r == char_alphabetic(c),
{
    c.is_alphabetic()
}

/// Relies on char::is_numeric: the result depends on the character alone.
#[verifier::external_body]
fn numeric(c: char) -> (r: bool)
    ensures
        r == char_numeric(c),
{
    c.is_numeric()
}

/// Relies on char::is_alphanumeric: the result depends on the character
/// alone.
#[verifier::external_body]
fn alphanumeric(c: char) -> (r: bool)
    ensures
        r == char_alphanumeric(c),
{
    c.is_alphanumeric()
}

/// Relies on char::is_whitespace: the result depends on the character
/// alone.
#[verifier::external_body]
fn whitespace(c: char) -> (r: bool)
    ensures
        r == char_whitespace(c),
{
    c.is_whitespace()
}

/// The password holds at least one letter.
pub open spec fn password_has_letter(s: Seq<char>) -> bool {
    exists|i: int| 0 <= i < s.len() && char_alphabetic(#[trigger] s[i])
}

/// The password holds at least one digit.
pub open spec fn password_has_digit(s: Seq<char>) -> bool {
    exists|i: int| 0 <= i < s.len() && char_numeric(#[trigger] s[i])
}

/// The password holds at least one character that is neither alphanumeric
/// nor whitespace.
pub open spec fn password_has_special(s: Seq<char>) -> bool {
    exists|i: int|
        0 <= i < s.len() && !char_alphanumeric(#[trigger] s[i]) && !char_whitespace(s[i])
}

/// Letters, digits and special characters are all present.
pub open spec fn password_complex(s: Seq<char>) -> bool {
    password_has_letter(s) && password_has_digit(s) && password_has_special(s)
}

/// A password: at least 8 bytes in its encoded form, no whitespace, and
/// letters, digits and special characters all present.
pub open spec fn valid_password(s: Seq<char>) -> bool {
    &&& vstd::utf8::encode_utf8(s).len() >= 8
    &&& forall|i: int| 0 <= i < s.len() ==> !char_whitespace(#[trigger] s[i])
    &&& password_complex(s)
}

/// A validated password.
#[derive(Debug)]
pub struct Password(String);

impl View for Password {
    type V = Seq<char>;

    closed spec fn view(&self) -> Seq<char> {
        self.0@
    }
}

impl Password {
    /// Accepts exactly the strings `valid_password` admits and stores the
    /// text unchanged.
    pub fn new(password: &str) -> (r: Result<Self, ValidationError>)
        ensures
            match r {
                Ok(u) => valid_password(password@) && u@ == password@,
                Err(e) => !valid_password(password@) && e is InvalidPassword,
            },
    {
        let encoded = password.as_bytes();
        proof {
            assert(encoded@ == vstd::utf8::encode_utf8(password@));
        }
        if encoded.len() < 8 {
            return Err(
                ValidationError::InvalidPassword(
                    "Password must be at least 8 characters long".to_owned(),
                ),
            );
        }
        let n = password.unicode_len();
        let mut i: usize = 0;
        while i < n
            invariant
                i <= n,
                n == password@.len(),
                forall|j: int| 0 <= j < i ==> !char_whitespace(#[trigger] password@[j]),
            decreases n - i,
        {
            if whitespace(password.get_char(i)) {
                return Err(
                    ValidationError::InvalidPassword(
                        "Password must not contain whitespace".to_owned(),
                    ),
                );
            }
            i += 1;
        }
        if !Password::is_complex_enough(password) {
            return Err(
                ValidationError::InvalidPassword(
                    "Password must include letters, numbers, and special characters".to_owned(),
                ),
            );
        }
        Ok(Password(password.to_owned()))
    }

    /// Whether letters, digits and special characters are all present.
    fn is_complex_enough(password: &str) -> (r: bool)
        ensures
            r == password_complex(password@),
    {
        let n = password.unicode_len();
        let mut has_letter = false;
        let mut has_digit = false;
        let mut has_special = false;
        let mut i: usize = 0;
        while i < n
            invariant
                i <= n,
                n == password@.len(),
                has_letter == exists|j: int|
                    0 <= j < i && char_alphabetic(#[trigger] password@[j]),
                has_digit == exists|j: int| 0 <= j < i && char_numeric(#[trigger] password@[j]),
                has_special == exists|j: int|
                    0 <= j < i && !char_alphanumeric(#[trigger] password@[j]) && !char_whitespace(
                        password@[j],
                    ),
            decreases n - i,
        {
            let c = password.get_char(i);
            if alphabetic(c) {
                proof {
                    assert(char_alphabetic(password@[i as int]));
                }
                has_letter = true;
            }
            if numeric(c) {
                proof {
                    assert(char_numeric(password@[i as int]));
                }
                has_digit = true;
            }
            if !alphanumeric(c) && !whitespace(c) {
                proof {
                    assert(!char_alphanumeric(password@[i as int]) && !char_whitespace(
                        password@[i as int],
                    ));
                }
                has_special = true;
            }
            i += 1;
        }
        has_letter && has_digit && has_special
    }

    /// The validated text.
    pub fn value(&self) -> (v: &String)
        ensures
            v@ == self@,
    {
        &self.0
    }
}

/// A validated username.
#[derive(Debug)]
pub struct Username(String);

impl View for Username {
    type V = Seq<char>;

    closed spec fn view(&self) -> Seq<char> {
        self.0@
    }
}

impl Username {
    /// Accepts exactly the strings `valid_username` admits and stores the
    /// text unchanged.
    pub fn new(name: &str) -> (r: Result<Self, ValidationError>)
        ensures
            match r {
                Ok(u) => valid_username(name@) && u@ == name@,
                Err(e) => !valid_username(name@) && e is InvalidUserName,
            },
    {
        let n = name.unicode_len();
        if n < 3 || n > 16 {
            return Err(
                ValidationError::InvalidUserName(
                    "Name must be 3-16 characters long and contain only letters, numbers, and underscores".to_owned(),
                ),
            );
        }
        let mut i: usize = 0;
        while i < n
            invariant
                i <= n,
                n == name@.len(),
                forall|j: int| 0 <= j < i ==> is_username_char(#[trigger] name@[j]),
            decreases n - i,
        {
            if !username_char(name.get_char(i)) {
                return Err(
                    ValidationError::InvalidUserName(
                        "Name must be 3-16 characters long and contain only letters, numbers, and underscores".to_owned(),
                    ),
                );
            }
            i += 1;
        }
        Ok(Username(name.to_owned()))
    }

    /// The validated text.
    pub fn value(&self) -> (v: &String)
        ensures
            v@ == self@,
    {
        &self.0
    }
}

/// A validated display name.
#[derive(Debug)]
pub struct Name(String);

impl View for Name {
    type V = Seq<char>;

    closed spec fn view(&self) -> Seq<char> {
        self.0@
    }
}

impl Name {
    /// Accepts exactly the strings `valid_name` admits and stores the text
    /// unchanged.
    pub fn new(name: &str) -> (r: Result<Self, ValidationError>)
        ensures
            match r {
                Ok(u) => valid_name(name@) && u@ == name@,
                Err(e) => !valid_name(name@) && e is InvalidName,
            },
    {
        let n = name.unicode_len();
        if n < 3 || n > 16 {
            return Err(
                ValidationError::InvalidName(
                    "Name must be 3-16 characters long and contain only letters, numbers, underscores, and spaces".to_owned(),
                ),
            );
        }
        let mut i: usize = 0;
        while i < n
            invariant
                i <= n,
                n == name@.len(),
                forall|j: int| 0 <= j < i ==> is_name_char(#[trigger] name@[j]),
            decreases n - i,
        {
            if !name_char(name.get_char(i)) {
                return Err(
                    ValidationError::InvalidName(
                        "Name must be 3-16 characters long and contain only letters, numbers, underscores, and spaces".to_owned(),
                    ),
                );
            }
            i += 1;
        }
        if name.get_char(0) == ' ' || name.get_char(n - 1) == ' ' {
            return Err(
                ValidationError::InvalidName(
                    "Name must not have leading or trailing spaces".to_owned(),
                ),
            );
        }
        Ok(Name(name.to_owned()))
    }

    /// The validated text.
    pub fn value(&self) -> (v: &String)
        ensures
            v@ == self@,
    {
        &self.0
    }
}

/// A character the local part of an email address may contain.
pub open spec fn is_local_char(c: char) -> bool {
    is_ascii_letter(c) || is_ascii_digit(c) || c == '_' || c == '.' || c == '+' || c == '-'
}

/// A character the domain label before the first dot may contain.
pub open spec fn is_domain_char(c: char) -> bool {
    is_ascii_letter(c) || is_ascii_digit(c) || c == '-'
}

/// A character the domain part after the first dot may contain.
pub open spec fn is_domain_tail_char(c: char) -> bool {
    is_ascii_letter(c) || is_ascii_digit(c) || c == '-' || c == '.'
}

/// The string splits as `local @ label . tail` at positions `a` (the `@`)
/// and `d` (the dot): non-empty local part of local characters, non-empty
/// dot-free label, non-empty tail.
pub open spec fn email_split_ok(s: Seq<char>, a: int, d: int) -> bool {
    &&& 0 < a
    &&& a + 1 < d
    &&& d < s.len() - 1
    &&& s[a] == '@'
    &&& s[d] == '.'
    &&& forall|i: int| 0 <= i < a ==> is_local_char(#[trigger] s[i])
    &&& forall|i: int| a < i < d ==> is_domain_char(#[trigger] s[i])
    &&& forall|i: int| d < i < s.len() ==> is_domain_tail_char(#[trigger] s[i])
}

/// An email address: some split into local part, first domain label and
/// domain tail is well-formed.
pub open spec fn valid_email(s: Seq<char>) -> bool {
    exists|a: int, d: int| email_split_ok(s, a, d)
}

fn local_char(c: char) -> (r: bool)
    ensures
        r == is_local_char(c),
{
    username_char(c) || c == '.' || c == '+' || c == '-'
}

fn domain_char(c: char) -> (r: bool)
    ensures
        r == is_domain_char(c),
{
    let u = c as u32;
    ('A' as u32 <= u && u <= 'Z' as u32) || ('a' as u32 <= u && u <= 'z' as u32) || ('0' as u32
        <= u && u <= '9' as u32) || c == '-'
}

fn domain_tail_char(c: char) -> (r: bool)
    ensures
        r == is_domain_tail_char(c),
{
    domain_char(c) || c == '.'
}

/// A validated email address.
#[derive(Debug)]
pub struct Email(String);

impl View for Email {
    type V = Seq<char>;

    closed spec fn view(&self) -> Seq<char> {
        self.0@
    }
}

/// The first occurrence of `target` at or after `from`, if any.
fn find_char_from(s: &str, from: usize, target: char) -> (r: Option<usize>)
    requires
        from <= s@.len(),
    ensures
        match r {
            Some(i) => from <= i < s@.len() && s@[i as int] == target && (forall|j: int|
                from <= j < i ==> s@[j] != target),
            None => forall|j: int| from <= j < s@.len() ==> s@[j] != target,
        },
{
    let n = s.unicode_len();
    let mut i: usize = from;
    while i < n
        invariant
            from <= i <= n,
            n == s@.len(),
            forall|j: int| from <= j < i ==> s@[j] != target,
        decreases n - i,
    {
        if s.get_char(i) == target {
            return Some(i);
        }
        i += 1;
    }
    None
}

/// Whether every character in `[from, to)` is a local-part character.
fn local_chars_in(s: &str, from: usize, to: usize) -> (r: bool)
    requires
        from <= to <= s@.len(),
    ensures
        r == forall|j: int| from <= j < to ==> is_local_char(#[trigger] s@[j]),
{
    let mut i: usize = from;
    while i < to
        invariant
            from <= i <= to <= s@.len(),
            forall|j: int| from <= j < i ==> is_local_char(#[trigger] s@[j]),
        decreases to - i,
    {
        if !local_char(s.get_char(i)) {
            assert(!is_local_char(s@[i as int]));
            return false;
        }
        i += 1;
    }
    true
}

/// Whether every character in `[from, to)` is a dot-free domain character.
fn domain_chars_in(s: &str, from: usize, to: usize) -> (r: bool)
    requires
        from <= to <= s@.len(),
    ensures
        r == forall|j: int| from <= j < to ==> is_domain_char(#[trigger] s@[j]),
{
    let mut i: usize = from;
    while i < to
        invariant
            from <= i <= to <= s@.len(),
            forall|j: int| from <= j < i ==> is_domain_char(#[trigger] s@[j]),
        decreases to - i,
    {
        if !domain_char(s.get_char(i)) {
            assert(!is_domain_char(s@[i as int]));
            return false;
        }
        i += 1;
    }
    true
}

/// Whether every character in `[from, to)` is a domain-tail character.
fn domain_tail_chars_in(s: &str, from: usize, to: usize) -> (r: bool)
    requires
        from <= to <= s@.len(),
    ensures
        r == forall|j: int| from <= j < to ==> is_domain_tail_char(#[trigger] s@[j]),
{
    let mut i: usize = from;
    while i < to
        invariant
            from <= i <= to <= s@.len(),
            forall|j: int| from <= j < i ==> is_domain_tail_char(#[trigger] s@[j]),
        decreases to - i,
    {
        if !domain_tail_char(s.get_char(i)) {
            assert(!is_domain_tail_char(s@[i as int]));
            return false;
        }
        i += 1;
    }
    true
}

/// A well-formed split must place its `@` at the first `@` of the string
/// (the local part cannot contain one) and its dot at the first dot after
/// the `@` (the label before it cannot contain one).
proof fn lemma_email_split_pins(s: Seq<char>, a: int, d: int, at: int, dot: int)
    requires
        email_split_ok(s, a, d),
        0 <= at < s.len(),
        s[at] == '@',
        forall|j: int| 0 <= j < at ==> #[trigger] s[j] != '@',
        at < dot < s.len(),
        s[dot] == '.',
        forall|j: int| at < j < dot ==> #[trigger] s[j] != '.',
    ensures
        a == at,
        d == dot,
{
    if a < at {
        assert(s[a] != '@');
        assert(false);
    }
    if a > at {
        assert(is_local_char(s[at]));
        assert(false);
    }
    if d < dot {
        assert(s[d] != '.');
        assert(false);
    }
    if d > dot {
        assert(is_domain_char(s[dot]));
        assert(false);
    }
}

impl Email {
    /// Accepts exactly the strings `valid_email` admits and stores the
    /// text unchanged.
    pub fn new(email: &str) -> (r: Result<Self, ValidationError>)
        ensures
            match r {
                Ok(u) => valid_email(email@) && u@ == email@,
                Err(e) => !valid_email(email@) && e is InvalidEmail,
            },
    {
        let ghost s = email@;
        let n = email.unicode_len();

        let at = match find_char_from(email, 0, '@') {
            Some(a) => a,
            None => {
                proof {
                    assert forall|a: int, d: int| !email_split_ok(s, a, d) by {
                        if email_split_ok(s, a, d) {
                            assert(s[a] != '@');
                            assert(false);
                        }
                    }
                }
                return Err(ValidationError::InvalidEmail("Invalid email format".to_owned()));
            },
        };
        if at == 0 {
            proof {
                assert forall|a: int, d: int| !email_split_ok(s, a, d) by {
                    if email_split_ok(s, a, d) {
                        if a > 0 {
                            assert(is_local_char(s[0]));
                            assert(false);
                        }
                    }
                }
            }
            return Err(ValidationError::InvalidEmail("Invalid email format".to_owned()));
        }
        if !local_chars_in(email, 0, at) {
            proof {
                let i0 = choose|j: int| 0 <= j < at && !is_local_char(#[trigger] s[j]);
                assert forall|a: int, d: int| !email_split_ok(s, a, d) by {
                    if email_split_ok(s, a, d) {
                        if a < at {
                            assert(s[a] != '@');
                            assert(false);
                        }
                        if a > at {
                            assert(is_local_char(s[at as int]));
                            assert(false);
                        }
                        assert(is_local_char(s[i0]));
                        assert(false);
                    }
                }
            }
            return Err(ValidationError::InvalidEmail("Invalid email format".to_owned()));
        }
        let dot = match find_char_from(email, at + 1, '.') {
            Some(d) => d,
            None => {
                proof {
                    assert forall|a: int, d: int| !email_split_ok(s, a, d) by {
                        if email_split_ok(s, a, d) {
                            if a < at {
                                assert(s[a] != '@');
                                assert(false);
                            }
                            if a > at {
                                assert(is_local_char(s[at as int]));
                                assert(false);
                            }
                            assert(s[d] != '.');
                            assert(false);
                        }
                    }
                }
                return Err(ValidationError::InvalidEmail("Invalid email format".to_owned()));
            },
        };
        proof {
            assert forall|a: int, d: int| email_split_ok(s, a, d) implies a == at && d == dot by {
                lemma_email_split_pins(s, a, d, at as int, dot as int);
            }
        }
        if dot == at + 1 || dot + 1 >= n {
            proof {
                assert forall|a: int, d: int| !email_split_ok(s, a, d) by {
                    if email_split_ok(s, a, d) {
                        assert(a == at && d == dot);
                        assert(false);
                    }
                }
            }
            return Err(ValidationError::InvalidEmail("Invalid email format".to_owned()));
        }
        if !domain_chars_in(email, at + 1, dot) {
            proof {
                let i0 = choose|j: int| at + 1 <= j < dot && !is_domain_char(#[trigger] s[j]);
                assert forall|a: int, d: int| !email_split_ok(s, a, d) by {
                    if email_split_ok(s, a, d) {
                        assert(a == at && d == dot);
                        assert(is_domain_char(s[i0]));
                        assert(false);
                    }
                }
            }
            return Err(ValidationError::InvalidEmail("Invalid email format".to_owned()));
        }
        if !domain_tail_chars_in(email, dot + 1, n) {
            proof {
                let i0 = choose|j: int| dot + 1 <= j < n && !is_domain_tail_char(#[trigger] s[j]);
                assert forall|a: int, d: int| !email_split_ok(s, a, d) by {
                    if email_split_ok(s, a, d) {
                        assert(a == at && d == dot);
                        assert(is_domain_tail_char(s[i0]));
                        assert(false);
                    }
                }
            }
            return Err(ValidationError::InvalidEmail("Invalid email format".to_owned()));
        }
        proof {
            assert(email_split_ok(s, at as int, dot as int));
        }
        Ok(Email(email.to_owned()))
    }

    /// The validated text.
    pub fn value(&self) -> (v: &String)
        ensures
            v@ == self@,
    {
        &self.0
    }
}


/// A validated file path.
#[derive(Debug)]
pub struct FilePath(String);

impl View for FilePath {
    type V = Seq<char>;

    closed spec fn view(&self) -> Seq<char> {
        self.0@
    }
}

impl FilePath {
    /// Accepts exactly the strings `valid_file_path` admits and stores the
    /// text unchanged.
    pub fn new(path: &str) -> (r: Result<Self, ValidationError>)
        ensures
            match r {
                Ok(u) => valid_file_path(path@) && u@ == path@,
                Err(e) => !valid_file_path(path@) && e is InvalidFilePath,
            },
    {
        let n = path.unicode_len();
        if n < 1 {
            return Err(ValidationError::InvalidFilePath("Invalid file path format".to_owned()));
        }
        let mut i: usize = 0;
        while i < n
            invariant
                i <= n,
                n == path@.len(),
                forall|j: int| 0 <= j < i ==> is_path_char(#[trigger] path@[j]),
            decreases n - i,
        {
            if !path_char(path.get_char(i)) {
                return Err(
                    ValidationError::InvalidFilePath("Invalid file path format".to_owned()),
                );
            }
            i += 1;
        }
        Ok(FilePath(path.to_owned()))
    }

    /// The validated text.
    pub fn value(&self) -> (v: &String)
        ensures
            v@ == self@,
    {
        &self.0
    }
}

/// A character a video identifier may contain.
pub open spec fn is_id_char(c: char) -> bool {
    is_ascii_letter(c) || is_ascii_digit(c) || c == '_' || c == '-'
}

/// The string with an optional scheme prefix removed.
pub open spec fn after_scheme(s: Seq<char>) -> Seq<char> {
    if s.len() >= 8 && s.subrange(0, 8) == "https://"@ {
        s.subrange(8, s.len() as int)
    } else if s.len() >= 7 && s.subrange(0, 7) == "http://"@ {
        s.subrange(7, s.len() as int)
    } else {
        s
    }
}

/// The string with an optional leading `www.` removed.
pub open spec fn after_www(s: Seq<char>) -> Seq<char> {
    if s.len() >= 4 && s.subrange(0, 4) == "www."@ {
        s.subrange(4, s.len() as int)
    } else {
        s
    }
}

/// What follows one of the two accepted video-page forms, once scheme and
/// `www.` are stripped; `None` when neither form is present.
pub open spec fn youtube_tail(s: Seq<char>) -> Option<Seq<char>> {
    let t = after_www(after_scheme(s));
    if t.len() >= 20 && t.subrange(0, 20) == "youtube.com/watch?v="@ {
        Some(t.subrange(20, t.len() as int))
    } else if t.len() >= 9 && t.subrange(0, 9) == "youtu.be/"@ {
        Some(t.subrange(9, t.len() as int))
    } else {
        None
    }
}

/// A video page reference: an optional scheme, an optional `www.`, one of
/// the two accepted host forms, and a non-empty identifier of identifier
/// characters.
pub open spec fn valid_youtube_url(s: Seq<char>) -> bool {
    match youtube_tail(s) {
        Some(id) => id.len() > 0 && (forall|i: int| 0 <= i < id.len() ==> is_id_char(#[trigger] id[i])),
        None => false,
    }
}

/// The video identifier of a well-formed reference.
pub open spec fn youtube_id(s: Seq<char>) -> Seq<char>
    recommends
        valid_youtube_url(s),
{
    match youtube_tail(s) {
        Some(id) => id,
        None => Seq::empty(),
    }
}

fn id_char(c: char) -> (r: bool)
    ensures
        r == is_id_char(c),
{
    username_char(c) || c == '-'
}

/// Whether `p` occurs in `s` starting at position `from`.
fn has_prefix_at(s: &str, from: usize, p: &str) -> (r: bool)
    requires
        from <= s@.len(),
    ensures
        r == (from + p@.len() <= s@.len() && s@.subrange(from as int, from + p@.len()) == p@),
{
    let m = p.unicode_len();
    let n = s.unicode_len();
    if m > n - from {
        return false;
    }
    let mut j: usize = 0;
    while j < m
        invariant
            j <= m,
            m == p@.len(),
            n == s@.len(),
            from + m <= n,
            forall|jj: int| 0 <= jj < j ==> s@[from + jj] == p@[jj],
        decreases m - j,
    {
        if s.get_char(from + j) != p.get_char(j) {
            proof {
                assert(s@.subrange(from as int, from + p@.len())[j as int] == s@[from + j]);
            }
            return false;
        }
        j += 1;
    }
    proof {
        assert(s@.subrange(from as int, from + p@.len()) =~= p@);
    }
    true
}

/// A validated video page reference, stored in the canonical short form.
#[derive(Debug)]
pub struct YouTubeUrl(String);

impl View for YouTubeUrl {
    type V = Seq<char>;

    closed spec fn view(&self) -> Seq<char> {
        self.0@
    }
}

impl YouTubeUrl {
    /// Accepts exactly the strings `valid_youtube_url` admits and stores
    /// the reference in canonical form: the short host followed by the
    /// video identifier.
    #[verifier::loop_isolation(false)]
    pub fn new(url: &str) -> (r: Result<Self, ValidationError>)
        ensures
            match r {
                Ok(u) => valid_youtube_url(url@) && u@ == "https://youtu.be/"@ + youtube_id(url@),
                Err(e) => !valid_youtube_url(url@) && e is InvalidYouTubeUrl,
            },
    {
        let ghost s = url@;
        let n = url.unicode_len();
        proof {
            reveal_strlit("https://");
            reveal_strlit("http://");
            reveal_strlit("www.");
            reveal_strlit("youtube.com/watch?v=");
            reveal_strlit("youtu.be/");
        }
        let mut off: usize = 0;
        if has_prefix_at(url, 0, "https://") {
            off = 8;
        } else if has_prefix_at(url, 0, "http://") {
            off = 7;
        }
        proof {
            assert(after_scheme(s) =~= s.subrange(off as int, n as int));
        }
        if has_prefix_at(url, off, "www.") {
            proof {
                assert(after_scheme(s).subrange(0, 4) =~= s.subrange(off as int, off + 4));
            }
            off = off + 4;
        } else {
            proof {
                if after_scheme(s).len() >= 4 {
                    assert(after_scheme(s).subrange(0, 4) =~= s.subrange(off as int, off + 4));
                }
            }
        }
        proof {
            assert(after_www(after_scheme(s)) =~= s.subrange(off as int, n as int));
        }
        let ghost t = after_www(after_scheme(s));
        if has_prefix_at(url, off, "youtube.com/watch?v=") {
            proof {
                assert(t.subrange(0, 20) =~= s.subrange(off as int, off + 20));
            }
            off = off + 20;
        } else if has_prefix_at(url, off, "youtu.be/") {
            proof {
                if t.len() >= 20 {
                    assert(t.subrange(0, 20) =~= s.subrange(off as int, off + 20));
                }
                assert(t.subrange(0, 9) =~= s.subrange(off as int, off + 9));
            }
            off = off + 9;
        } else {
            proof {
                if t.len() >= 20 {
                    assert(t.subrange(0, 20) =~= s.subrange(off as int, off + 20));
                }
                if t.len() >= 9 {
                    assert(t.subrange(0, 9) =~= s.subrange(off as int, off + 9));
                }
                assert(youtube_tail(s) is None);
            }
            return Err(
                ValidationError::InvalidYouTubeUrl("Invalid YouTube URL format".to_owned()),
            );
        }
        proof {
            assert(youtube_tail(s) == Some(t.subrange(t.len() - (n - off), t.len() as int)));
            assert(t.subrange(t.len() - (n - off), t.len() as int) =~= s.subrange(
                off as int,
                n as int,
            ));
        }
        let ghost id = s.subrange(off as int, n as int);
        if off >= n {
            proof {
                assert(id.len() == 0);
            }
            return Err(
                ValidationError::InvalidYouTubeUrl("Invalid YouTube URL format".to_owned()),
            );
        }
        let mut i: usize = off;
        while i < n
            invariant
                off <= i <= n,
                forall|j: int| 0 <= j < i - off ==> is_id_char(#[trigger] id[j]),
            decreases n - i,
        {
            let c = url.get_char(i);
            if !id_char(c) {
                proof {
                    assert(id[i - off] == s[i as int]);
                    assert(!is_id_char(id[i - off]));
                }
                return Err(
                    ValidationError::InvalidYouTubeUrl("Invalid YouTube URL format".to_owned()),
                );
            }
            i += 1;
        }
        let tail = url.substring_char(off, n);
        let mut canonical: String = "https://youtu.be/".to_owned();
        canonical.append(tail);
        Ok(YouTubeUrl(canonical))
    }

    /// The canonical form of the validated reference.
    pub fn value(&self) -> (v: &String)
        ensures
            v@ == self@,
    {
        &self.0
    }
}

} // verus!
