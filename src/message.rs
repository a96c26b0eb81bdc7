use crate::decimal::{digits_of, push_decimal};
use vstd::prelude::*;
use vstd::string::*;

verus! {

/// The whole message when nothing waits.
pub open spec fn no_pending_text() -> Seq<char> {
    "âœ… **AWBW** â†’ No pending turns"@
}

/// What stands between two parts of a message.
pub open spec fn separator() -> Seq<char> {
    " â€¢ "@
}

/// The header: the total count and a link to the list of games.
pub open spec fn header_text(count: u32) -> Seq<char> {
    "ðŸŽ® **AWBW ("@ + digits_of(count as nat) + ")** â†’ [All](https://awbw.amarriner.com/yourgames.php?yourTurn=1)"@
}

/// A link to one game, labelled with its id.
pub open spec fn game_link_text(id: u32) -> Seq<char> {
    "["@ + digits_of(id as nat) + "](https://awbw.amarriner.com/game.php?games_id="@ + digits_of(id as nat) + ")"@
}

/// Each id's link, in the given order, each one after a separator.
pub open spec fn game_links_text(ids: Seq<u32>) -> Seq<char>
    decreases ids.len(),
{
    if ids.len() == 0 {
        Seq::empty()
    } else {
        game_links_text(ids.drop_last()) + separator() + game_link_text(ids.last())
    }
}

/// How many games are shown one by one at most.
pub open spec fn shown_links() -> nat {
    5
}

/// The note on the games that were not shown one by one.
pub open spec fn more_text(n: nat) -> Seq<char> {
    if n > shown_links() {
        separator() + "+"@ + digits_of((n - shown_links()) as nat) + " more"@
    } else {
        Seq::empty()
    }
}

/// The ids whose links are shown: the first five.
pub open spec fn shown_ids(ids: Seq<u32>) -> Seq<u32> {
    if ids.len() <= shown_links() {
        ids
    } else {
        ids.take(shown_links() as int)
    }
}

/// The notification for `count` pending turns among the games `ids`.
pub open spec fn message_text(count: u32, ids: Seq<u32>) -> Seq<char> {
    if count == 0 && ids.len() == 0 {
        no_pending_text()
    } else {
        header_text(count) + game_links_text(shown_ids(ids)) + more_text(ids.len())
    }
}

const MAX_LINKS: usize = 5;

/// Formats the notification: the header with the count, up to five game
/// links in the order given, and how many more there are.
pub fn build_discord_message(count: u32, ids: &[u32]) -> (r: String)
    ensures
        r@ == message_text(count, ids@),
{
    if count == 0 && ids.len() == 0 {
        return String::from_str("âœ… **AWBW** â†’ No pending turns");
    }
    let mut s = String::from_str("ðŸŽ® **AWBW (");
    push_decimal(&mut s, count as u64);
    s.append(")** â†’ [All](https://awbw.amarriner.com/yourgames.php?yourTurn=1)");
    let shown: usize = if ids.len() < MAX_LINKS { ids.len() } else { MAX_LINKS };
    let mut i: usize = 0;
    while i < shown
        invariant
            shown <= ids@.len(),
            shown == (if ids@.len() < 5 { ids@.len() } else { 5 }),
            0 <= i <= shown,
            s@ == header_text(count) + game_links_text(ids@.take(i as int)),
        decreases shown - i,
    {
        let id = ids[i];
        let ghost before = s@;
        s.append(" â€¢ ");
        s.append("[");
        push_decimal(&mut s, id as u64);
        s.append("](https://awbw.amarriner.com/game.php?games_id=");
        push_decimal(&mut s, id as u64);
        s.append(")");
        assert(ids@.take(i as int + 1).drop_last() =~= ids@.take(i as int));
        assert(s@ =~= before + separator() + game_link_text(id));
        i = i + 1;
    }
    if ids.len() > MAX_LINKS {
        s.append(" â€¢ ");
        s.append("+");
        push_decimal(&mut s, (ids.len() - MAX_LINKS) as u64);
        s.append(" more");
    }
    assert(shown_ids(ids@) =~= ids@.take(shown as int));
    assert(s@ =~= message_text(count, ids@));
    s
}

} // verus!
