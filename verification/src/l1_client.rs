//! How the L1 client of a sequencer is set up.

use crate::text::text_equal;
use vstd::prelude::*;
use vstd::string::*;

verus! {

/// How many seconds pass before an L1 client that failed to start is started again.
pub const RETRY_SECONDS: u64 = 1;

/// What to do about the L1 client.
#[derive(Debug, PartialEq, Eq)]
pub enum L1ClientSetup {
    /// No provider is set, and none is needed: work with mock L1 blocks.
    Mock,
    /// No provider is set, and one is needed.
    MissingProvider,
    /// The setting of the block tag is neither on nor off.
    InvalidBlockTag { value: String },
    /// Start a client on this provider, with the tag for the latest block in place
    /// of the one for the finalized block where asked for.
    Start { url: String, use_latest_block_tag: bool },
}

/// What to do after an attempt to start the L1 client.
#[derive(Debug, PartialEq, Eq)]
pub enum StartStep<C> {
    /// The client is there.
    Started(C),
    /// Wait, and try again.
    RetryAfter { seconds: u64 },
}

/// The settings that mean yes.
pub open spec fn is_on(s: Seq<char>) -> bool {
    s == "y"@ || s == "yes"@ || s == "t"@ || s == "true"@ || s == "on"@ || s == "1"@
}

/// The settings that mean no.
pub open spec fn is_off(s: Seq<char>) -> bool {
    s == "n"@ || s == "no"@ || s == "f"@ || s == "false"@ || s == "off"@ || s == "0"@
}

/// Reads a setting as yes or no.
pub fn parse_switch(s: &str) -> (r: Option<bool>)
    ensures
        r == (if is_on(s@) {
            Some(true)
        } else if is_off(s@) {
            Some(false)
        } else {
            None
        }),
{
    if text_equal(s, "y") || text_equal(s, "yes") || text_equal(s, "t") || text_equal(s, "true")
        || text_equal(s, "on") || text_equal(s, "1") {
        Some(true)
    } else if text_equal(s, "n") || text_equal(s, "no") || text_equal(s, "f") || text_equal(
        s,
        "false",
    ) || text_equal(s, "off") || text_equal(s, "0") {
        Some(false)
    } else {
        None
    }
}

/// No setting means both yes and no.
pub proof fn switches_differ()
    ensures
        forall|s: Seq<char>| is_on(s) ==> !is_off(s),
{
    reveal_strlit("y");
    reveal_strlit("yes");
    reveal_strlit("t");
    reveal_strlit("true");
    reveal_strlit("on");
    reveal_strlit("1");
    reveal_strlit("n");
    reveal_strlit("no");
    reveal_strlit("f");
    reveal_strlit("false");
    reveal_strlit("off");
    reveal_strlit("0");
    assert forall|s: Seq<char>| is_on(s) implies !is_off(s) by {
        if is_on(s) && is_off(s) {
            assert(s[0] == 'y' || s[0] == 't' || s[0] == 'o' || s[0] == '1');
            assert(s[0] == 'n' || s[0] == 'f' || s[0] == 'o' || s[0] == '0');
            assert(s.len() == 2);
            assert(s.len() == 3);
        }
    }
}

/// The settings letter by letter. Case counts, and nothing may stand around them.
pub proof fn switches_letter_by_letter(s: Seq<char>)
    ensures
        is_on(s) <==> {
            ||| s == seq!['y']
            ||| s == seq!['y', 'e', 's']
            ||| s == seq!['t']
            ||| s == seq!['t', 'r', 'u', 'e']
            ||| s == seq!['o', 'n']
            ||| s == seq!['1']
        },
        is_off(s) <==> {
            ||| s == seq!['n']
            ||| s == seq!['n', 'o']
            ||| s == seq!['f']
            ||| s == seq!['f', 'a', 'l', 's', 'e']
            ||| s == seq!['o', 'f', 'f']
            ||| s == seq!['0']
        },
{
    reveal_strlit("y");
    reveal_strlit("yes");
    reveal_strlit("t");
    reveal_strlit("true");
    reveal_strlit("on");
    reveal_strlit("1");
    reveal_strlit("n");
    reveal_strlit("no");
    reveal_strlit("f");
    reveal_strlit("false");
    reveal_strlit("off");
    reveal_strlit("0");
    assert("y"@ =~= seq!['y']);
    assert("yes"@ =~= seq!['y', 'e', 's']);
    assert("t"@ =~= seq!['t']);
    assert("true"@ =~= seq!['t', 'r', 'u', 'e']);
    assert("on"@ =~= seq!['o', 'n']);
    assert("1"@ =~= seq!['1']);
    assert("n"@ =~= seq!['n']);
    assert("no"@ =~= seq!['n', 'o']);
    assert("f"@ =~= seq!['f']);
    assert("false"@ =~= seq!['f', 'a', 'l', 's', 'e']);
    assert("off"@ =~= seq!['o', 'f', 'f']);
    assert("0"@ =~= seq!['0']);
}

/// What to do about the L1 client, from the provider's URL and the setting of the
/// block tag, each where it is set. Only in tests may there be no provider.
pub fn l1_client_setup(
    url: Option<String>,
    use_latest_block_tag: Option<String>,
    testing: bool,
) -> (r: L1ClientSetup)
    ensures
        match (url, use_latest_block_tag) {
            (None, _) => r == (if testing {
                L1ClientSetup::Mock
            } else {
                L1ClientSetup::MissingProvider
            }),
            (Some(u), None) => r == (L1ClientSetup::Start { url: u, use_latest_block_tag: false }),
            (Some(u), Some(tag)) => if is_on(tag@) {
                r == (L1ClientSetup::Start { url: u, use_latest_block_tag: true })
            } else if is_off(tag@) {
                r == (L1ClientSetup::Start { url: u, use_latest_block_tag: false })
            } else {
                r == (L1ClientSetup::InvalidBlockTag { value: tag })
            },
        },
{
    match url {
        None => {
            if testing {
                L1ClientSetup::Mock
            } else {
                L1ClientSetup::MissingProvider
            }
        },
        Some(url) => match use_latest_block_tag {
            None => L1ClientSetup::Start { url, use_latest_block_tag: false },
            Some(value) => match parse_switch(value.as_str()) {
                Some(use_latest_block_tag) => L1ClientSetup::Start { url, use_latest_block_tag },
                None => L1ClientSetup::InvalidBlockTag { value },
            },
        },
    }
}

/// What to do after an attempt to start the L1 client: a client that is there is
/// used, and any failure is taken to pass with time.
pub fn after_start<C, E>(attempt: Result<C, E>) -> (r: StartStep<C>)
    ensures
        r == (match attempt {
            Ok(client) => StartStep::Started(client),
            Err(_) => StartStep::RetryAfter { seconds: 1 },
        }),
{
    match attempt {
        Ok(client) => StartStep::Started(client),
        Err(_) => StartStep::RetryAfter { seconds: RETRY_SECONDS },
    }
}

/// What is said of a setting of the block tag that is neither on nor off.
pub fn invalid_block_tag_message(value: &str) -> (r: String)
    ensures
        r@ == "invalid ESPRESSO_SEQUENCER_L1_USE_LATEST_BLOCK_TAG value: "@ + value@,
{
    let mut message = "invalid ESPRESSO_SEQUENCER_L1_USE_LATEST_BLOCK_TAG value: ".to_owned();
    message.append(value);
    message
}

} // verus!
