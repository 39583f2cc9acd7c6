use crate::error::ContractError;
use crate::state::opt_view;
use vstd::prelude::*;
use vstd::string::*;

verus! {

/// Longest name of a stream, in characters.
pub const MAX_NAME_LENGTH: usize = 64;

/// Longest url of a stream, in characters.
pub const MAX_URL_LENGTH: usize = 250;

/// Whether every character is a printable ASCII character, from the space
/// to the tilde.
pub open spec fn printable(text: Seq<char>) -> bool {
    forall|i: int| 0 <= i < text.len() ==> ' ' <= #[trigger] text[i] <= '~'
}

/// Whether a name and a url can be shown: the name has 1 to 64 characters,
/// the url, if there is one, at most 250, and all of them are printable.
pub open spec fn name_and_url_ok(name: Seq<char>, url: Option<Seq<char>>) -> bool {
    &&& 1 <= name.len() <= MAX_NAME_LENGTH
    &&& printable(name)
    &&& url is Some ==> url->0.len() <= MAX_URL_LENGTH && printable(url->0)
}

/// Whether the text has at most `max` characters, all of them printable.
pub fn is_printable_within(text: &str, max: usize) -> (b: bool)
    ensures
        b == (text@.len() <= max && printable(text@)),
{
    if !text.is_ascii() {
        proof {
            if printable(text@) {
                assert forall|i: int| 0 <= i < text@.len() implies '\0' <= #[trigger] text@[i]
                    <= '\u{7f}' by {
                    assert(' ' <= text@[i] <= '~');
                }
            }
        }
        return false;
    }
    let n = text.unicode_len();
    if n > max {
        return false;
    }
    let mut i: usize = 0;
    while i < n
        invariant
            n == text@.len(),
            text.is_ascii(),
            0 <= i <= n,
            forall|j: int| 0 <= j < i ==> ' ' <= #[trigger] text@[j] <= '~',
        decreases n - i,
    {
        let b = text.get_ascii(i);
        if b < 32 || b > 126 {
            assert(!(' ' <= text@[i as int] <= '~'));
            return false;
        }
        assert(' ' <= text@[i as int] <= '~');
        i = i + 1;
    }
    true
}

/// `InvalidNameOrUrl` unless name and url can be shown.
pub fn check_name_and_url(name: &String, url: &Option<String>) -> (r: Result<(), ContractError>)
    ensures
        r == (if name_and_url_ok(name@, opt_view(*url)) {
            Ok::<(), ContractError>(())
        } else {
            Err::<(), ContractError>(ContractError::InvalidNameOrUrl)
        }),
{
    if name.as_str().unicode_len() < 1 || !is_printable_within(name.as_str(), MAX_NAME_LENGTH) {
        return Err(ContractError::InvalidNameOrUrl);
    }
    match url {
        Some(text) => {
            if !is_printable_within(text.as_str(), MAX_URL_LENGTH) {
                return Err(ContractError::InvalidNameOrUrl);
            }
        },
        None => {},
    }
    Ok(())
}

} // verus!
