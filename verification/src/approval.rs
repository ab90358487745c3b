//! The dialog in which the user allows or denies a request.
use vstd::prelude::*;

use crate::config::Config;
use crate::process::{push_text, ProcessReply, ProcessSpec, ProcessView, ReplyView};
use crate::text::{
    contains_text, decimal, decimal_text, from_utf8_lossy, join, joined, law_joined_lines_come_apart,
    law_joined_piece_stands_between, law_occurrence_has_a_place, lines, lossy_text, occurs_in,
    texts,
};

verus! {

/// Why a request was not allowed.
#[derive(Debug)]
pub enum ApprovalError {
    /// The dialog could not be shown.
    NotShown { cause: String },
    NotApproved,
}

/// Why a request was not allowed, as mathematics.
pub enum ApprovalErrorView {
    NotShown { cause: Seq<char> },
    NotApproved,
}

impl View for ApprovalError {
    type V = ApprovalErrorView;

    open spec fn view(&self) -> ApprovalErrorView {
        match self {
            ApprovalError::NotShown { cause } => ApprovalErrorView::NotShown { cause: cause@ },
            ApprovalError::NotApproved => ApprovalErrorView::NotApproved,
        }
    }
}

impl ApprovalErrorView {
    /// The message that is shown.
    pub open spec fn message(self) -> Seq<char> {
        match self {
            ApprovalErrorView::NotShown { cause } => cause,
            ApprovalErrorView::NotApproved => "secret request was not approved"@,
        }
    }
}

impl ApprovalError {
    /// The message that is shown.
    pub fn message(&self) -> (r: String)
        ensures
            r@ == self@.message(),
    {
        match self {
            ApprovalError::NotShown { cause } => cause.clone(),
            ApprovalError::NotApproved => "secret request was not approved".to_string(),
        }
    }
}

/// What stands for a character between the quotes of a script.
pub open spec fn escaped_char(c: char) -> Seq<char> {
    if c == '\\' {
        seq!['\\', '\\']
    } else if c == '"' {
        seq!['\\', '"']
    } else if c == '\n' {
        seq!['\\', 'n']
    } else {
        seq![c]
    }
}

/// What stands for a text between the quotes of a script.
pub open spec fn escaped(s: Seq<char>) -> Seq<char>
    decreases s.len(),
{
    if s.len() == 0 {
        Seq::empty()
    } else {
        escaped(s.drop_last()) + escaped_char(s.last())
    }
}

/// Writes a text as a quoted string of a script.
pub fn applescript_string(value: &str) -> (r: String)
    ensures
        r@ == seq!['"'] + escaped(value@) + seq!['"'],
{
    let mut out = String::new();
    out.push('"');
    assert(value@.take(0) =~= Seq::empty());
    assert(out@ =~= seq!['"'] + escaped(value@.take(0)));
    for c in it: value.chars()
        invariant
            it.seq() == value@,
            out@ == seq!['"'] + escaped(value@.take(it.index() as int)),
    {
        let ghost i = it.index();
        let ghost before = out@;
        assert(value@.take(i + 1).drop_last() =~= value@.take(i as int));
        assert(value@.take(i + 1).last() == c);
        if c == '\\' {
            out.push('\\');
            out.push('\\');
        } else if c == '"' {
            out.push('\\');
            out.push('"');
        } else if c == '\n' {
            out.push('\\');
            out.push('n');
        } else {
            out.push(c);
        }
        assert(out@ =~= before + escaped_char(c));
        assert(out@ =~= seq!['"'] + escaped(value@.take(i + 1)));
    }
    assert(value@.take(value@.len() as int) =~= value@);
    out.push('"');
    assert(out@ =~= seq!['"'] + escaped(value@) + seq!['"']);
    out
}

/// How a script reads the rest of a quoted string: up to the first quote that no
/// backslash stands before. Gives the text and what follows it.
pub open spec fn read_quoted(s: Seq<char>) -> Option<(Seq<char>, Seq<char>)>
    decreases s.len(),
{
    if s.len() == 0 {
        None
    } else if s[0] == '"' {
        Some((Seq::empty(), s.skip(1)))
    } else if s[0] == '\\' {
        if s.len() == 1 {
            None
        } else {
            match read_quoted(s.skip(2)) {
                None => None,
                Some((text, rest)) => Some(
                    (
                        seq![
                            if s[1] == 'n' {
                                '\n'
                            } else {
                                s[1]
                            },
                        ] + text,
                        rest,
                    ),
                ),
            }
        }
    } else {
        match read_quoted(s.skip(1)) {
            None => None,
            Some((text, rest)) => Some((seq![s[0]] + text, rest)),
        }
    }
}

proof fn lemma_escaped_front(s: Seq<char>)
    requires
        s.len() > 0,
    ensures
        escaped(s) == escaped_char(s[0]) + escaped(s.skip(1)),
    decreases s.len(),
{
    if s.len() == 1 {
        assert(s.drop_last() =~= Seq::empty());
        assert(s.skip(1) =~= Seq::empty());
        assert(escaped(s) =~= escaped_char(s[0]) + escaped(s.skip(1)));
    } else {
        lemma_escaped_front(s.drop_last());
        assert(s.drop_last().skip(1) =~= s.skip(1).drop_last());
        assert(s.skip(1).last() == s.last());
        assert(escaped(s) =~= escaped_char(s[0]) + escaped(s.skip(1)));
    }
}

/// A quoted text reads back as it was, and ends at its own closing quote
/// whatever follows: nothing in a text can get out of its quotes.
pub proof fn law_quoted_text_reads_back(s: Seq<char>, rest: Seq<char>)
    ensures
        read_quoted(escaped(s) + seq!['"'] + rest) == Some((s, rest)),
    decreases s.len(),
{
    let all = escaped(s) + seq!['"'] + rest;
    if s.len() == 0 {
        assert(all[0] == '"');
        assert(all.skip(1) =~= rest);
        assert(s =~= Seq::empty());
    } else {
        lemma_escaped_front(s);
        let tail = escaped(s.skip(1)) + seq!['"'] + rest;
        law_quoted_text_reads_back(s.skip(1), rest);
        assert(all =~= escaped_char(s[0]) + tail);
        assert(s =~= seq![s[0]] + s.skip(1));
        if escaped_char(s[0]).len() == 2 {
            assert(all.skip(2) =~= tail);
        } else {
            assert(all.skip(1) =~= tail);
        }
    }
}

/// A text, or words that say there is none.
pub open spec fn or_not_provided(s: Seq<char>) -> Seq<char> {
    if s.len() == 0 {
        "(not provided)"@
    } else {
        s
    }
}

/// What the dialog says.
pub open spec fn dialog_message(
    client_id: Seq<char>,
    secret_id: Seq<char>,
    purpose: Seq<char>,
    run_id: Seq<char>,
) -> Seq<char> {
    joined(
        seq![
            "A remote agent is requesting a Vaultwarden secret."@,
            ""@,
            "Client: "@ + client_id,
            "Secret: "@ + secret_id,
            "Purpose: "@ + or_not_provided(purpose),
            "Run ID: "@ + or_not_provided(run_id),
            ""@,
            "Approve only if this matches the task you expect."@,
        ],
        "\n"@,
    )
}

/// The script that shows the dialog. It denies unless the user allows in time.
pub open spec fn dialog_script(message: Seq<char>, timeout_seconds: nat) -> Seq<char> {
    "display dialog "@ + (seq!['"'] + escaped(message) + seq!['"'])
        + " buttons {\"Deny\", \"Allow\"} default button \"Deny\" cancel button \"Deny\" with title \"BW Broker Approval\" giving up after "@
        + decimal(timeout_seconds)
}

fn with_label(label: &str, s: &str) -> (r: String)
    ensures
        r@ == label@ + s@,
{
    label.to_string().concat(s)
}

fn provided(s: &str) -> (r: &str)
    ensures
        r@ == or_not_provided(s@),
{
    if s.is_empty() {
        "(not provided)"
    } else {
        s
    }
}

/// The call that asks the user, where the dialog is switched on.
pub fn confirm_request(
    config: &Config,
    client_id: &str,
    secret_id: &str,
    purpose: &str,
    run_id: &str,
) -> (r: Option<ProcessSpec>)
    ensures
        match r {
            None => !config.approval.confirm_dialog,
            Some(process) => config.approval.confirm_dialog && process@ == (ProcessView {
                program: "osascript"@,
                args: seq![
                    "-e"@,
                    dialog_script(
                        dialog_message(client_id@, secret_id@, purpose@, run_id@),
                        config.approval.dialog_timeout_seconds as nat,
                    ),
                ],
                envs: Seq::empty(),
                stdin: None,
            }),
        },
{
    if !config.approval.confirm_dialog {
        return None;
    }
    let mut lines: Vec<String> = Vec::new();
    push_text(&mut lines, "A remote agent is requesting a Vaultwarden secret.");
    push_text(&mut lines, "");
    push_text(&mut lines, with_label("Client: ", client_id).as_str());
    push_text(&mut lines, with_label("Secret: ", secret_id).as_str());
    push_text(&mut lines, with_label("Purpose: ", provided(purpose)).as_str());
    push_text(&mut lines, with_label("Run ID: ", provided(run_id)).as_str());
    push_text(&mut lines, "");
    push_text(&mut lines, "Approve only if this matches the task you expect.");
    assert(texts(lines@) =~= seq![
        "A remote agent is requesting a Vaultwarden secret."@,
        ""@,
        "Client: "@ + client_id@,
        "Secret: "@ + secret_id@,
        "Purpose: "@ + or_not_provided(purpose@),
        "Run ID: "@ + or_not_provided(run_id@),
        ""@,
        "Approve only if this matches the task you expect."@,
    ]);
    let message = join(&lines, "\n");
    let script = "display dialog ".to_string().concat(
        applescript_string(message.as_str()).as_str(),
    ).concat(
        " buttons {\"Deny\", \"Allow\"} default button \"Deny\" cancel button \"Deny\" with title \"BW Broker Approval\" giving up after ",
    ).concat(decimal_text(config.approval.dialog_timeout_seconds).as_str());
    let mut args: Vec<String> = Vec::new();
    push_text(&mut args, "-e");
    push_text(&mut args, script.as_str());
    assert(texts(args@) =~= seq!["-e"@, script@]);
    let r = ProcessSpec { program: "osascript".to_string(), args, envs: Vec::new(), stdin: None };
    assert(r@.envs =~= Seq::empty());
    Some(r)
}

/// Whether what the dialog printed allows the request.
pub open spec fn allows(success: bool, printed: Seq<char>) -> bool {
    success && occurs_in(printed, "button returned:Allow"@)
}

/// Whether what the dialog printed allows the request.
pub fn is_allowed(success: bool, printed: &str) -> (r: bool)
    ensures
        r == allows(success, printed@),
{
    success && contains_text(printed, "button returned:Allow")
}

/// Why the answer to the dialog does not allow the request, if it does not.
pub open spec fn denial(reply: ReplyView) -> Option<ApprovalErrorView> {
    match reply {
        ReplyView::NotStarted(cause) => Some(ApprovalErrorView::NotShown { cause }),
        ReplyView::Finished(output) => if allows(output.success, lossy_text(output.stdout)) {
            None
        } else {
            Some(ApprovalErrorView::NotApproved)
        },
    }
}

/// Whether the user allowed the request.
pub fn read_confirmation(reply: ProcessReply) -> (r: Result<(), ApprovalError>)
    ensures
        match r {
            Ok(()) => denial(reply@) is None,
            Err(e) => denial(reply@) == Some(e@),
        },
{
    match reply {
        ProcessReply::NotStarted(cause) => Err(ApprovalError::NotShown { cause }),
        ProcessReply::Finished(output) => if is_allowed(
            output.success,
            from_utf8_lossy(&output.stdout).as_str(),
        ) {
            Ok(())
        } else {
            Err(ApprovalError::NotApproved)
        },
    }
}

/// A quoted text is quoted character by character: a backslash stands before a
/// backslash and before a quote, a line feed is written as a backslash and an
/// `n`, and every other character stands for itself.
pub proof fn law_text_is_quoted_by_characters(a: Seq<char>, b: Seq<char>, c: char)
    ensures
        escaped(a + b) == escaped(a) + escaped(b),
        c != '\\' && c != '"' && c != '\n' ==> escaped(seq![c]) == seq![c],
        c == '\\' || c == '"' ==> escaped(seq![c]) == seq!['\\', c],
        escaped(seq!['\n']) == seq!['\\', 'n'],
        escaped(Seq::empty()) == Seq::<char>::empty(),
    decreases b.len(),
{
    reveal_with_fuel(escaped, 2);
    assert(seq![c].drop_last() =~= Seq::empty());
    assert(escaped(seq![c]) =~= escaped_char(c));
    assert(seq!['\n'].drop_last() =~= Seq::empty());
    assert(escaped(seq!['\n']) =~= escaped_char('\n'));
    if b.len() == 0 {
        assert(a + b =~= a);
        assert(escaped(a + b) =~= escaped(a) + escaped(b));
    } else {
        law_text_is_quoted_by_characters(a, b.drop_last(), c);
        assert((a + b).drop_last() =~= a + b.drop_last());
        assert((a + b).last() == b.last());
        assert(escaped(a + b) =~= escaped(a) + escaped(b));
    }
}

spec fn plain(s: Seq<char>) -> bool {
    !s.contains('\n')
}

proof fn lemma_plain_behind_label(label: Seq<char>, s: Seq<char>)
    requires
        plain(label),
        plain(s),
    ensures
        plain(label + s),
{
    let all = label + s;
    assert forall|i: int| 0 <= i < all.len() implies #[trigger] all[i] != '\n' by {
        if i < label.len() {
            assert(label.contains(label[i]));
        } else {
            assert(s.contains(s[i - label.len()]));
        }
    }
}

proof fn lemma_dialog_words()
    ensures
        plain("A remote agent is requesting a Vaultwarden secret."@),
        plain(""@),
        plain("Client: "@),
        plain("Secret: "@),
        plain("Purpose: "@),
        plain("Run ID: "@),
        plain("(not provided)"@),
        plain("Approve only if this matches the task you expect."@),
{
    reveal_strlit("A remote agent is requesting a Vaultwarden secret.");
    reveal_strlit("");
    reveal_strlit("Client: ");
    reveal_strlit("Secret: ");
    reveal_strlit("Purpose: ");
    reveal_strlit("Run ID: ");
    reveal_strlit("(not provided)");
    reveal_strlit("Approve only if this matches the task you expect.");
}

/// The dialog says, line by line, who asks for which secret, for what purpose
/// and in which run, each behind its label as it was given; only a purpose or a
/// run that was left empty is said not to be provided.
pub proof fn law_dialog_says_what_was_asked(
    client_id: Seq<char>,
    secret_id: Seq<char>,
    purpose: Seq<char>,
    run_id: Seq<char>,
)
    requires
        !client_id.contains('\n'),
        !secret_id.contains('\n'),
        !purpose.contains('\n'),
        !run_id.contains('\n'),
    ensures
        ({
            let shown = lines(dialog_message(client_id, secret_id, purpose, run_id));
            &&& shown.len() == 8
            &&& shown[0] == "A remote agent is requesting a Vaultwarden secret."@
            &&& shown[1] == ""@
            &&& shown[2] == "Client: "@ + client_id
            &&& shown[3] == "Secret: "@ + secret_id
            &&& purpose.len() > 0 ==> shown[4] == "Purpose: "@ + purpose
            &&& purpose.len() == 0 ==> shown[4] == "Purpose: (not provided)"@
            &&& run_id.len() > 0 ==> shown[5] == "Run ID: "@ + run_id
            &&& run_id.len() == 0 ==> shown[5] == "Run ID: (not provided)"@
            &&& shown[6] == ""@
            &&& shown[7] == "Approve only if this matches the task you expect."@
        }),
{
    lemma_dialog_words();
    let p = or_not_provided(purpose);
    let r = or_not_provided(run_id);
    lemma_plain_behind_label("Client: "@, client_id);
    lemma_plain_behind_label("Secret: "@, secret_id);
    lemma_plain_behind_label("Purpose: "@, p);
    lemma_plain_behind_label("Run ID: "@, r);
    law_joined_lines_come_apart(
        seq![
            "A remote agent is requesting a Vaultwarden secret."@,
            ""@,
            "Client: "@ + client_id,
            "Secret: "@ + secret_id,
            "Purpose: "@ + p,
            "Run ID: "@ + r,
            ""@,
            "Approve only if this matches the task you expect."@,
        ],
    );
    if purpose.len() == 0 || run_id.len() == 0 {
        reveal_strlit("Purpose: ");
        reveal_strlit("Run ID: ");
        reveal_strlit("(not provided)");
        reveal_strlit("Purpose: (not provided)");
        reveal_strlit("Run ID: (not provided)");
        assert("Purpose: "@ + "(not provided)"@ =~= "Purpose: (not provided)"@);
        assert("Run ID: "@ + "(not provided)"@ =~= "Run ID: (not provided)"@);
    }
}

/// Whatever was asked, over however many lines, the dialog holds it whole: each
/// value behind its label, from the start of a line to the end of one.
pub proof fn law_dialog_leaves_nothing_out(
    client_id: Seq<char>,
    secret_id: Seq<char>,
    purpose: Seq<char>,
    run_id: Seq<char>,
)
    ensures
        ({
            let message = dialog_message(client_id, secret_id, purpose, run_id);
            &&& occurs_in(message, "\n"@ + ("Client: "@ + client_id) + "\n"@)
            &&& occurs_in(message, "\n"@ + ("Secret: "@ + secret_id) + "\n"@)
            &&& purpose.len() > 0 ==> occurs_in(message, "\n"@ + ("Purpose: "@ + purpose) + "\n"@)
            &&& run_id.len() > 0 ==> occurs_in(message, "\n"@ + ("Run ID: "@ + run_id) + "\n"@)
        }),
{
    let pieces = seq![
        "A remote agent is requesting a Vaultwarden secret."@,
        ""@,
        "Client: "@ + client_id,
        "Secret: "@ + secret_id,
        "Purpose: "@ + or_not_provided(purpose),
        "Run ID: "@ + or_not_provided(run_id),
        ""@,
        "Approve only if this matches the task you expect."@,
    ];
    law_joined_piece_stands_between(pieces, "\n"@, 2);
    law_joined_piece_stands_between(pieces, "\n"@, 3);
    law_joined_piece_stands_between(pieces, "\n"@, 4);
    law_joined_piece_stands_between(pieces, "\n"@, 5);
}

proof fn lemma_same_behind_label(label: Seq<char>, a: Seq<char>, b: Seq<char>)
    requires
        label + a == label + b,
    ensures
        a == b,
{
    assert(a =~= (label + a).skip(label.len() as int));
    assert(b =~= (label + b).skip(label.len() as int));
}

/// Two requests that are asked in the same words are the same request: same
/// client, same secret, same purpose, same run. (Only the words for a value that
/// was left empty could also be given as a value.)
pub proof fn law_dialog_tells_requests_apart(
    client_a: Seq<char>,
    secret_a: Seq<char>,
    purpose_a: Seq<char>,
    run_a: Seq<char>,
    client_b: Seq<char>,
    secret_b: Seq<char>,
    purpose_b: Seq<char>,
    run_b: Seq<char>,
)
    requires
        dialog_message(client_a, secret_a, purpose_a, run_a) == dialog_message(
            client_b,
            secret_b,
            purpose_b,
            run_b,
        ),
        !client_a.contains('\n') && !secret_a.contains('\n'),
        !purpose_a.contains('\n') && !run_a.contains('\n'),
        !client_b.contains('\n') && !secret_b.contains('\n'),
        !purpose_b.contains('\n') && !run_b.contains('\n'),
        purpose_a != "(not provided)"@ && run_a != "(not provided)"@,
        purpose_b != "(not provided)"@ && run_b != "(not provided)"@,
    ensures
        client_a == client_b,
        secret_a == secret_b,
        purpose_a == purpose_b,
        run_a == run_b,
{
    law_dialog_says_what_was_asked(client_a, secret_a, purpose_a, run_a);
    law_dialog_says_what_was_asked(client_b, secret_b, purpose_b, run_b);
    lemma_same_behind_label("Client: "@, client_a, client_b);
    lemma_same_behind_label("Secret: "@, secret_a, secret_b);
    reveal_strlit("Purpose: ");
    reveal_strlit("Run ID: ");
    reveal_strlit("(not provided)");
    reveal_strlit("Purpose: (not provided)");
    reveal_strlit("Run ID: (not provided)");
    assert("Purpose: "@ + "(not provided)"@ =~= "Purpose: (not provided)"@);
    assert("Run ID: "@ + "(not provided)"@ =~= "Run ID: (not provided)"@);
    lemma_same_behind_label("Purpose: "@, or_not_provided(purpose_a), or_not_provided(purpose_b));
    lemma_same_behind_label("Run ID: "@, or_not_provided(run_a), or_not_provided(run_b));
    assert(purpose_a.len() == 0 ==> purpose_a =~= Seq::empty());
    assert(purpose_b.len() == 0 ==> purpose_b =~= Seq::empty());
    assert(run_a.len() == 0 ==> run_a =~= Seq::empty());
    assert(run_b.len() == 0 ==> run_b =~= Seq::empty());
}

/// The script shows the message as it is, in quotes, and behind them only the
/// two buttons, of which the one that denies is chosen where the user does
/// nothing, the title, and the seconds after which the dialog goes away.
pub proof fn law_script_shows_the_message(message: Seq<char>, timeout_seconds: nat)
    ensures
        ({
            let script = dialog_script(message, timeout_seconds);
            let head = "display dialog "@ + seq!['"'];
            &&& script.len() >= head.len()
            &&& script.take(head.len() as int) == head
            &&& read_quoted(script.skip(head.len() as int)) == Some(
                (
                    message,
                    " buttons {\"Deny\", \"Allow\"} default button \"Deny\" cancel button \"Deny\" with title \"BW Broker Approval\" giving up after "@
                        + decimal(timeout_seconds),
                ),
            )
        }),
{
    let script = dialog_script(message, timeout_seconds);
    let head = "display dialog "@ + seq!['"'];
    let rest =
        " buttons {\"Deny\", \"Allow\"} default button \"Deny\" cancel button \"Deny\" with title \"BW Broker Approval\" giving up after "@
        + decimal(timeout_seconds);
    assert(script =~= head + (escaped(message) + seq!['"'] + rest));
    assert(script.take(head.len() as int) =~= head);
    assert(script.skip(head.len() as int) =~= escaped(message) + seq!['"'] + rest);
    law_quoted_text_reads_back(message, rest);
}

/// A request is allowed only by a dialog that ran to its end and printed, at
/// some place, that the button that allows was pressed; and by every such one.
pub proof fn law_only_the_button_allows(answer: ReplyView)
    ensures
        denial(answer) is None <==> {
            &&& answer is Finished
            &&& answer->Finished_0.success
            &&& exists|a: Seq<char>, b: Seq<char>|
                lossy_text(answer->Finished_0.stdout) == #[trigger] (a + "button returned:Allow"@
                    + b)
        },
        answer matches ReplyView::NotStarted(cause) ==> denial(answer) == Some(
            ApprovalErrorView::NotShown { cause },
        ) && denial(answer)->0.message() == cause,
        answer is Finished && denial(answer) is Some ==> denial(answer)->0.message()
            == "secret request was not approved"@,
{
    if answer is Finished {
        law_occurrence_has_a_place(
            lossy_text(answer->Finished_0.stdout),
            "button returned:Allow"@,
        );
    }
}

} // verus!
