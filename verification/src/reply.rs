//! Replies: what the client reads back.

use vstd::prelude::*;
use vstd::string::*;

verus! {

/// The reply to a command that was carried out.
pub open spec fn ok_text() -> Seq<char> {
    "ok\n"@
}

/// The reply to a command that was refused.
pub open spec fn err_text(msg: Seq<char>) -> Seq<char> {
    "error: "@ + msg + "\n"@
}

/// A complaint about one word: the complaint, then the word in quotes.
pub open spec fn quoted(complaint: Seq<char>, word: Seq<char>) -> Seq<char> {
    complaint + " '"@ + word + "'"@
}

/// Whether a reply says that the command was refused.
pub open spec fn is_refusal(reply: Seq<char>) -> bool {
    "error: "@.is_prefix_of(reply)
}

/// The reply `ok`.
pub fn ok() -> (r: String)
    ensures
        r@ == ok_text(),
{
    "ok\n".to_owned()
}

/// An error reply.
pub fn err(msg: &str) -> (r: String)
    ensures
        r@ == err_text(msg@),
{
    let mut r = "error: ".to_owned();
    r.append(msg);
    r.append("\n");
    r
}

/// A complaint about one word.
pub fn quote(complaint: &str, word: &str) -> (r: String)
    ensures
        r@ == quoted(complaint@, word@),
{
    let mut r = complaint.to_owned();
    r.append(" '");
    r.append(word);
    r.append("'");
    r
}

/// An error reply about one word.
pub fn err_quote(complaint: &str, word: &str) -> (r: String)
    ensures
        r@ == err_text(quoted(complaint@, word@)),
{
    let msg = quote(complaint, word);
    err(msg.as_str())
}

/// Whether a reply is an error reply.
pub open spec fn is_error(reply: Seq<char>) -> bool {
    exists|msg: Seq<char>| reply == #[trigger] err_text(msg)
}

/// Whether a text ends with a newline.
pub open spec fn ends_line(text: Seq<char>) -> bool {
    text.len() > 0 && text.last() == '\n'
}

/// Every error reply starts with `error: `, and `ok` does not. Both end with
/// a newline.
pub proof fn refusals_are_marked(msg: Seq<char>)
    ensures
        is_refusal(err_text(msg)),
        !is_refusal(ok_text()),
        ends_line(err_text(msg)),
        ends_line(ok_text()),
{
    assert(err_text(msg).take("error: "@.len() as int) =~= "error: "@);
    reveal_strlit("error: ");
    reveal_strlit("ok\n");
    reveal_strlit("\n");
}

/// A reply that ends with a newline starts with `error: ` if and only if it
/// is an error reply.
pub proof fn refusals_are_errors(reply: Seq<char>)
    requires
        ends_line(reply),
    ensures
        is_refusal(reply) <==> is_error(reply),
{
    reveal_strlit("error: ");
    reveal_strlit("\n");
    if is_refusal(reply) {
        let n = reply.len() as int;
        if n == 7 {
            assert(reply[6] == "error: "@[6]);
        }
        let msg = reply.subrange(7, n - 1);
        assert(reply =~= err_text(msg)) by {
            assert forall|i: int| 0 <= i < n implies reply[i] == err_text(msg)[i] by {
                if i < 7 {
                    assert(reply.take(7)[i] == "error: "@[i]);
                }
            }
        }
    }
    if is_error(reply) {
        let msg = choose|msg: Seq<char>| reply == #[trigger] err_text(msg);
        refusals_are_marked(msg);
    }
}

/// Replies, character by character: `ok`, errors, and complaints about a
/// word.
pub proof fn replies_are_spelled(msg: Seq<char>, word: Seq<char>)
    ensures
        ok_text() == seq!['o', 'k', '\n'],
        err_text(msg) == seq!['e', 'r', 'r', 'o', 'r', ':', ' '] + msg + seq!['\n'],
        quoted(msg, word) == msg + seq![' ', '\''] + word + seq!['\''],
{
    reveal_strlit("ok\n");
    reveal_strlit("error: ");
    reveal_strlit("\n");
    reveal_strlit(" '");
    reveal_strlit("'");
    assert(ok_text() =~= seq!['o', 'k', '\n']);
    assert("error: "@ =~= seq!['e', 'r', 'r', 'o', 'r', ':', ' ']);
    assert("\n"@ =~= seq!['\n']);
    assert(" '"@ =~= seq![' ', '\'']);
    assert("'"@ =~= seq!['\'']);
}

} // verus!
