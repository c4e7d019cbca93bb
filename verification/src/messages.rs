//! Rendered text of queue messages: user mentions and the identifiers
//! carried by the queue's interaction buttons.

use vstd::prelude::*;
use vstd::string::StringExecFns;
use crate::text::str_eq;

verus! {

/// A chat mention of one member identifier.
pub open spec fn mention_of(id: Seq<char>) -> Seq<char> {
    "<@"@ + id + ">"@
}

/// The mentions of all identifiers, joined by the separator.
pub open spec fn mention_list(ids: Seq<Seq<char>>, sep: Seq<char>) -> Seq<char>
    decreases ids.len(),
{
    if ids.len() == 0 {
        Seq::empty()
    } else if ids.len() == 1 {
        mention_of(ids[0])
    } else {
        mention_list(ids.drop_last(), sep) + sep + mention_of(ids.last())
    }
}

/// Builds the mention of each identifier, joined by the separator.
pub fn join_mentions(user_ids: &Vec<String>, sep: &str) -> (r: String)
    ensures
        r@ == mention_list(user_ids.deep_view(), sep@),
{
    let mut r = String::new();
    let mut i: usize = 0;
    while i < user_ids.len()
        invariant
            i <= user_ids@.len(),
            r@ == mention_list(user_ids.deep_view().take(i as int), sep@),
        decreases user_ids@.len() - i,
    {
        if i > 0 {
            r.append(sep);
        }
        r.append("<@");
        r.append(user_ids[i].as_str());
        r.append(">");
        i = i + 1;
        proof {
            let ids = user_ids.deep_view();
            assert(ids.take(i as int).drop_last() =~= ids.take(i - 1));
            assert(ids.take(i as int).last() == ids[i - 1]);
            assert(r@ =~= mention_list(ids.take(i as int), sep@));
        }
    }
    proof {
        assert(user_ids.deep_view().take(user_ids@.len() as int) =~= user_ids.deep_view());
    }
    r
}

/// Formats user identifiers as chat mentions, one per line.
pub fn format_user_mentions(user_ids: &Vec<String>) -> (r: String)
    ensures
        r@ == mention_list(user_ids.deep_view(), "\n"@),
{
    join_mentions(user_ids, "\n")
}

/// The digit character for one decimal digit.
pub open spec fn digit_char(d: nat) -> char {
    if d == 0 {
        '0'
    } else if d == 1 {
        '1'
    } else if d == 2 {
        '2'
    } else if d == 3 {
        '3'
    } else if d == 4 {
        '4'
    } else if d == 5 {
        '5'
    } else if d == 6 {
        '6'
    } else if d == 7 {
        '7'
    } else if d == 8 {
        '8'
    } else {
        '9'
    }
}

/// The decimal rendering of a number, most significant digit first.
pub open spec fn decimal_of(n: nat) -> Seq<char>
    decreases n,
{
    if n < 10 {
        seq![digit_char(n)]
    } else {
        decimal_of(n / 10) + seq![digit_char(n % 10)]
    }
}

fn digit_str(d: usize) -> (r: &'static str)
    requires
        d < 10,
    ensures
        r@ == decimal_of(d as nat),
{
    proof {
        reveal_strlit("0");
        reveal_strlit("1");
        reveal_strlit("2");
        reveal_strlit("3");
        reveal_strlit("4");
        reveal_strlit("5");
        reveal_strlit("6");
        reveal_strlit("7");
        reveal_strlit("8");
        reveal_strlit("9");
        assert("0"@ =~= seq![digit_char(0)]);
        assert("1"@ =~= seq![digit_char(1)]);
        assert("2"@ =~= seq![digit_char(2)]);
        assert("3"@ =~= seq![digit_char(3)]);
        assert("4"@ =~= seq![digit_char(4)]);
        assert("5"@ =~= seq![digit_char(5)]);
        assert("6"@ =~= seq![digit_char(6)]);
        assert("7"@ =~= seq![digit_char(7)]);
        assert("8"@ =~= seq![digit_char(8)]);
        assert("9"@ =~= seq![digit_char(9)]);
    }
    match d {
        0 => "0",
        1 => "1",
        2 => "2",
        3 => "3",
        4 => "4",
        5 => "5",
        6 => "6",
        7 => "7",
        8 => "8",
        _ => "9",
    }
}

/// Renders a count in decimal.
pub fn usize_to_string(n: usize) -> (r: String)
    ensures
        r@ == decimal_of(n as nat),
    decreases n,
{
    if n < 10 {
        digit_str(n).to_owned()
    } else {
        let mut r = usize_to_string(n / 10);
        r.append(digit_str(n % 10));
        assert(r@ =~= decimal_of(n as nat));
        r
    }
}

/// The text of the queue message: the optional last action, the numbered
/// active list (or a placeholder when empty), and the numbered waitlist when
/// one exists.
pub open spec fn queue_description_of(
    users: Seq<Seq<char>>,
    waitlist: Seq<Seq<char>>,
    last_action: Option<Seq<char>>,
) -> Seq<char> {
    let head = match last_action {
        Some(a) => a + "\n"@,
        None => Seq::empty(),
    };
    let users_part = if users.len() == 0 {
        "No users in queue"@
    } else {
        "### Queued users ("@ + decimal_of(users.len()) + ")\n"@ + mention_list(users, "\n"@)
    };
    let waitlist_part = if waitlist.len() == 0 {
        Seq::<char>::empty()
    } else {
        "\n\n### Waitlist ("@ + decimal_of(waitlist.len()) + ")\n"@ + mention_list(
            waitlist,
            "\n"@,
        )
    };
    head + users_part + waitlist_part
}

/// Builds the text of the queue message.
pub fn queue_description(
    users: &Vec<String>,
    waitlist: &Vec<String>,
    last_action: Option<&str>,
) -> (r: String)
    ensures
        r@ == queue_description_of(users.deep_view(), waitlist.deep_view(), match last_action {
            Some(a) => Some(a@),
            None => None,
        }),
{
    let mut description = String::new();

    if let Some(action_text) = last_action {
        description.append(action_text);
        description.append("\n");
    }

    if users.len() == 0 {
        description.append("No users in queue");
    } else {
        description.append("### Queued users (");
        description.append(usize_to_string(users.len()).as_str());
        description.append(")\n");
        description.append(format_user_mentions(users).as_str());
    }

    if waitlist.len() > 0 {
        description.append("\n\n### Waitlist (");
        description.append(usize_to_string(waitlist.len()).as_str());
        description.append(")\n");
        description.append(format_user_mentions(waitlist).as_str());
    }

    proof {
        assert(description@ =~= queue_description_of(
            users.deep_view(),
            waitlist.deep_view(),
            match last_action {
                Some(a) => Some(a@),
                None => None,
            },
        ));
    }
    description
}

/// The actions carried by the queue message's buttons.
#[derive(Debug, Clone, Copy, PartialEq, Eq, Structural)]
pub enum ButtonAction {
    /// Join the queue.
    Join,
    /// Leave the queue.
    Leave,
    /// Close the queue.
    Close,
    /// Reopen a closed queue.
    Open,
}

/// The component identifier rendered into each queue button.
pub open spec fn button_id_of(a: ButtonAction) -> Seq<char> {
    match a {
        ButtonAction::Join => "join_queue"@,
        ButtonAction::Leave => "leave_queue"@,
        ButtonAction::Close => "close_queue"@,
        ButtonAction::Open => "open_queue"@,
    }
}

/// The action a clicked component identifier stands for, if any.
pub open spec fn action_of_button_id(s: Seq<char>) -> Option<ButtonAction> {
    if s == "join_queue"@ {
        Some(ButtonAction::Join)
    } else if s == "leave_queue"@ {
        Some(ButtonAction::Leave)
    } else if s == "close_queue"@ {
        Some(ButtonAction::Close)
    } else if s == "open_queue"@ {
        Some(ButtonAction::Open)
    } else {
        None
    }
}

/// Maps a clicked component identifier to the queue action it requests,
/// replacing string dispatch with a closed set of event kinds.
pub fn parse_button_action(custom_id: &str) -> (r: Option<ButtonAction>)
    ensures
        r == action_of_button_id(custom_id@),
{
    if str_eq(custom_id, "join_queue") {
        Some(ButtonAction::Join)
    } else if str_eq(custom_id, "leave_queue") {
        Some(ButtonAction::Leave)
    } else if str_eq(custom_id, "close_queue") {
        Some(ButtonAction::Close)
    } else if str_eq(custom_id, "open_queue") {
        Some(ButtonAction::Open)
    } else {
        None
    }
}

/// The component identifier to render on a queue button.
pub fn button_id(a: ButtonAction) -> (r: &'static str)
    ensures
        r@ == button_id_of(a),
{
    match a {
        ButtonAction::Join => "join_queue",
        ButtonAction::Leave => "leave_queue",
        ButtonAction::Close => "close_queue",
        ButtonAction::Open => "open_queue",
    }
}

} // verus!
