//! Rules on wallet file names and on the text of the active-wallet pointer.
use vstd::prelude::*;

verus! {

/// The characters that `str::trim` strips: Unicode's White_Space property.
pub open spec fn white_space(c: char) -> bool {
    let u = c as u32;
    (0x9 <= u && u <= 0xd) || u == 0x20 || u == 0x85 || u == 0xa0 || u == 0x1680 || (0x2000 <= u
        && u <= 0x200a) || u == 0x2028 || u == 0x2029 || u == 0x202f || u == 0x205f || u == 0x3000
}

pub open spec fn trim_start(s: Seq<char>) -> Seq<char>
    decreases s.len(),
{
    if s.len() > 0 && white_space(s[0]) {
        trim_start(s.drop_first())
    } else {
        s
    }
}

pub open spec fn trim_end(s: Seq<char>) -> Seq<char>
    decreases s.len(),
{
    if s.len() > 0 && white_space(s.last()) {
        trim_end(s.drop_last())
    } else {
        s
    }
}

/// `s` without its leading and trailing white space.
pub open spec fn trimmed(s: Seq<char>) -> Seq<char> {
    trim_end(trim_start(s))
}

pub open spec fn has_char(s: Seq<char>, c: char) -> bool {
    exists|i: int| 0 <= i < s.len() && s[i] == c
}

/// `s` holds two dots in a row.
pub open spec fn has_parent_token(s: Seq<char>) -> bool {
    exists|i: int| 0 <= i < s.len() - 1 && #[trigger] s[i] == '.' && s[i + 1] == '.'
}

pub open spec fn wallet_suffix() -> Seq<char> {
    seq!['.', 'd', 'a', 't']
}

pub open spec fn ends_with_suffix(s: Seq<char>) -> bool {
    s.len() >= 4 && s.subrange(s.len() - 4, s.len() as int) == wallet_suffix()
}

/// A name that stays inside the application directory and names a wallet file.
pub open spec fn valid_wallet_name(s: Seq<char>) -> bool {
    !has_char(s, '/') && !has_char(s, '\\') && !has_parent_token(s) && ends_with_suffix(s)
}

pub open spec fn default_name() -> Seq<char> {
    seq!['w', 'a', 'l', 'l', 'e', 't', '.', 'd', 'a', 't']
}

/// The active wallet named by the pointer file's text, if the file could be read.
pub open spec fn active_from_pointer(pointer: Option<Seq<char>>) -> Seq<char> {
    match pointer {
        Some(t) => if trimmed(t).len() > 0 {
            trimmed(t)
        } else {
            default_name()
        },
        None => default_name(),
    }
}

/// The name under which a file picked for import is stored.
pub open spec fn import_name_of(file_name: Seq<char>) -> Seq<char> {
    if ends_with_suffix(file_name) {
        file_name
    } else {
        file_name + wallet_suffix()
    }
}

/// Relies on `str::trim`: it removes leading and trailing White_Space characters.
#[verifier::external_body]
pub(crate) fn trim_text(s: &str) -> (r: String)
    ensures
        r@ == trimmed(s@),
{
    s.trim().to_string()
}

/// A name without white space at either end reads back unchanged from the pointer.
pub proof fn lemma_trim_stable(s: Seq<char>)
    requires
        s.len() > 0,
        !white_space(s[0]),
        !white_space(s.last()),
    ensures
        trimmed(s) == s,
{
}

/// A valid wallet name ends in a `t`, which is no white space.
pub proof fn lemma_valid_name_end(s: Seq<char>)
    requires
        valid_wallet_name(s),
    ensures
        s.len() >= 4,
        s.last() == 't',
        !white_space(s.last()),
{
    assert(s.subrange(s.len() - 4, s.len() as int)[3] == s.last());
}

pub fn contains_char(s: &str, c: char) -> (r: bool)
    ensures
        r == has_char(s@, c),
{
    let n: usize = s.unicode_len();
    let mut i: usize = 0;
    while i < n
        invariant
            n == s@.len(),
            0 <= i <= n,
            forall|j: int| 0 <= j < i ==> s@[j] != c,
        decreases n - i,
    {
        if s.get_char(i) == c {
            return true;
        }
        i = i + 1;
    }
    false
}

pub fn contains_parent_token(s: &str) -> (r: bool)
    ensures
        r == has_parent_token(s@),
{
    let n: usize = s.unicode_len();
    if n < 2 {
        return false;
    }
    let mut i: usize = 0;
    while i < n - 1
        invariant
            n == s@.len(),
            n >= 2,
            0 <= i <= n - 1,
            forall|j: int| 0 <= j < i && j < n - 1 ==> !(#[trigger] s@[j] == '.' && s@[j + 1] == '.'),
        decreases n - i,
    {
        if s.get_char(i) == '.' && s.get_char(i + 1) == '.' {
            return true;
        }
        i = i + 1;
    }
    false
}

pub fn has_wallet_suffix(s: &str) -> (r: bool)
    ensures
        r == ends_with_suffix(s@),
{
    let n: usize = s.unicode_len();
    if n < 4 {
        return false;
    }
    let r = s.get_char(n - 4) == '.' && s.get_char(n - 3) == 'd' && s.get_char(n - 2) == 'a'
        && s.get_char(n - 1) == 't';
    let ghost tail = s@.subrange(n - 4, n as int);
    if r {
        assert(tail =~= wallet_suffix());
    } else {
        assert(tail != wallet_suffix()) by {
            if tail == wallet_suffix() {
                assert(tail[0] == s@[n - 4]);
                assert(tail[1] == s@[n - 3]);
                assert(tail[2] == s@[n - 2]);
                assert(tail[3] == s@[n - 1]);
            }
        }
    }
    r
}

pub fn same_text(a: &str, b: &str) -> (r: bool)
    ensures
        r == (a@ == b@),
{
    let n: usize = a.unicode_len();
    if n != b.unicode_len() {
        return false;
    }
    let mut i: usize = 0;
    while i < n
        invariant
            n == a@.len(),
            n == b@.len(),
            0 <= i <= n,
            forall|j: int| 0 <= j < i ==> a@[j] == b@[j],
        decreases n - i,
    {
        if a.get_char(i) != b.get_char(i) {
            return false;
        }
        i = i + 1;
    }
    assert(a@ =~= b@);
    true
}

/// Whether `name` may be joined to the application directory as a wallet file.
pub fn is_valid_wallet_name(name: &str) -> (r: bool)
    ensures
        r == valid_wallet_name(name@),
{
    !contains_char(name, '/') && !contains_char(name, '\\') && !contains_parent_token(name)
        && has_wallet_suffix(name)
}

pub fn default_wallet_name() -> (r: String)
    ensures
        r@ == default_name(),
{
    let r = String::from_str("wallet.dat");
    proof {
        reveal_strlit("wallet.dat");
    }
    assert(r@ =~= default_name());
    r
}

/// The active wallet's name from the pointer file's text (`None`: absent or unreadable).
pub fn active_name_from_pointer(pointer: &Option<String>) -> (r: String)
    ensures
        r@ == active_from_pointer(
            match pointer {
                Some(t) => Some(t@),
                None => None,
            },
        ),
{
    match pointer {
        Some(t) => {
            let name = trim_text(t.as_str());
            if name.unicode_len() > 0 {
                name
            } else {
                default_wallet_name()
            }
        },
        None => default_wallet_name(),
    }
}

/// The destination name of an imported file: the suffix is added where it is missing.
pub fn import_name(file_name: &str) -> (r: String)
    ensures
        r@ == import_name_of(file_name@),
{
    let owned = String::from_str(file_name);
    if has_wallet_suffix(file_name) {
        owned
    } else {
        proof {
            reveal_strlit(".dat");
        }
        let r = owned.concat(".dat");
        assert(".dat"@ =~= wallet_suffix());
        r
    }
}

} // verus!
