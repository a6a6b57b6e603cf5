use vstd::prelude::*;
use crate::engine::GameData;
use crate::physics::{cell_coord, cell_of};

verus! {

/// A hint, shown when the player reaches column `col`.
#[derive(Clone, Debug)]
pub struct Message {
    pub text: String,
    pub col: i32,
}

/// The column whose reaching allows switching dimension in the tutorial.
pub const SWITCH_COLUMN: i64 = 2;

/// Hints waiting to be shown, in order, and the one on screen, if any.
pub struct Tutorial {
    pub current_message_index: Option<usize>,
    pub message_list: Vec<Message>,
}

/// The state of a tutorial: its messages and the index of the one shown.
pub struct TutorialView {
    pub messages: Seq<Message>,
    pub current: Option<int>,
}

/// The index of the first message tied to column `col`, if any.
pub open spec fn first_at(messages: Seq<Message>, col: int) -> Option<int>
    decreases messages.len(),
{
    if messages.len() == 0 {
        None
    } else {
        match first_at(messages.drop_last(), col) {
            Some(i) => Some(i),
            None => if messages.last().col == col {
                Some(messages.len() - 1)
            } else {
                None
            },
        }
    }
}

/// The tutorial after the player was seen in column `col`: with no message
/// on screen, the first one tied to that column comes up.
pub open spec fn checked(t: TutorialView, col: int) -> TutorialView {
    if t.messages.len() == 0 || t.current is Some {
        t
    } else {
        TutorialView { current: first_at(t.messages, col), ..t }
    }
}

/// The tutorial after the message on screen was dismissed: it leaves the
/// list for good.
pub open spec fn dismissed(t: TutorialView) -> TutorialView {
    match t.current {
        Some(i) => TutorialView { messages: t.messages.remove(i), current: None },
        None => t,
    }
}

/// A message index points into the list.
pub open spec fn view_wf(t: TutorialView) -> bool {
    t.current matches Some(i) ==> 0 <= i < t.messages.len()
}

proof fn lemma_first_at_bounds(messages: Seq<Message>, col: int)
    ensures
        first_at(messages, col) matches Some(i) ==> 0 <= i < messages.len() && messages[i].col == col,
        first_at(messages, col) is None ==> forall|j: int| 0 <= j < messages.len() ==> #[trigger] messages[j].col != col,
    decreases messages.len(),
{
    if messages.len() > 0 {
        lemma_first_at_bounds(messages.drop_last(), col);
        assert forall|j: int| 0 <= j < messages.len() - 1 implies messages.drop_last()[j] == #[trigger] messages[j] by {}
    }
}

/// A first match in a prefix is the first match of the whole list.
proof fn lemma_first_at_prefix(messages: Seq<Message>, k: int, col: int)
    requires
        0 <= k <= messages.len(),
        first_at(messages.take(k), col) is Some,
    ensures
        first_at(messages, col) == first_at(messages.take(k), col),
    decreases messages.len() - k,
{
    if k < messages.len() {
        assert(messages.take(k + 1).drop_last() =~= messages.take(k));
        lemma_first_at_prefix(messages, k + 1, col);
    } else {
        assert(messages.take(k) =~= messages);
    }
}

impl Tutorial {
    pub open spec fn view(&self) -> TutorialView {
        TutorialView {
            messages: self.message_list@,
            current: match self.current_message_index {
                Some(i) => Some(i as int),
                None => None,
            },
        }
    }

    pub open spec fn wf(&self) -> bool {
        view_wf(self.view())
    }

    /// A tutorial with no messages.
    pub fn new() -> (r: Tutorial)
        ensures
            r.wf(),
            r.view().messages.len() == 0,
            r.view().current is None,
    {
        Tutorial { current_message_index: None, message_list: Vec::new() }
    }

    /// The message on screen, if any.
    pub fn get_current_message(&self) -> (r: Option<&Message>)
        requires
            self.wf(),
        ensures
            match self.view().current {
                Some(i) => r == Some(&self.view().messages[i]),
                None => r is None,
            },
    {
        if let Some(index) = self.current_message_index {
            Some(&self.message_list[index])
        } else {
            None
        }
    }

    /// Queues a message for column `col`.
    pub fn add_message(&mut self, text: String, col: i32)
        requires
            old(self).wf(),
        ensures
            final(self).wf(),
            final(self).view() == (TutorialView {
                messages: old(self).view().messages.push(Message { text, col }),
                ..old(self).view()
            }),
    {
        self.message_list.push(Message { text, col });
    }

    /// Removes the message on screen from the list; it is not shown again.
    pub fn delete_message(&mut self)
        requires
            old(self).wf(),
        ensures
            final(self).wf(),
            final(self).view() == dismissed(old(self).view()),
    {
        if let Some(index) = self.current_message_index {
            self.message_list.remove(index);
            self.current_message_index = None;
        }
    }

    /// The index of the first message tied to column `col`, if any.
    fn position_of(&self, col: i64) -> (r: Option<usize>)
        ensures
            match first_at(self.message_list@, col as int) {
                Some(i) => r == Some(i as usize),
                None => r is None,
            },
    {
        let mut i: usize = 0;
        while i < self.message_list.len()
            invariant
                i <= self.message_list@.len(),
                first_at(self.message_list@.take(i as int), col as int) is None,
            decreases self.message_list@.len() - i,
        {
            let ghost msgs = self.message_list@;
            assert(msgs.take(i + 1).drop_last() =~= msgs.take(i as int));
            if self.message_list[i].col as i64 == col {
                proof {
                    lemma_first_at_prefix(msgs, i + 1, col as int);
                }
                return Some(i);
            }
            i = i + 1;
        }
        assert(self.message_list@.take(i as int) =~= self.message_list@);
        None
    }

    /// Looks at the column the player is in: reaching the switch column
    /// allows switching dimension, whatever messages are left, and with no
    /// message on screen the first one tied to the column comes up.
    pub fn check_message(&mut self, game_data: &mut GameData)
        requires
            old(self).wf(),
        ensures
            final(self).wf(),
            final(self).view() == checked(old(self).view(), cell_coord(old(game_data).player.x as int)),
            final(game_data).dimension_enabled == (old(game_data).dimension_enabled || cell_coord(
                old(game_data).player.x as int,
            ) == SWITCH_COLUMN),
            final(game_data).map == old(game_data).map,
            final(game_data).player == old(game_data).player,
            final(game_data).dimension == old(game_data).dimension,
    {
        let col = cell_of(game_data.player.x);
        if !game_data.dimension_enabled && col == SWITCH_COLUMN {
            game_data.dimension_enabled = true;
        }
        if self.message_list.len() == 0 {
            return ;
        }
        if self.current_message_index.is_none() {
            let found = self.position_of(col);
            proof {
                lemma_first_at_bounds(self.message_list@, col as int);
            }
            if let Some(message_idx) = found {
                self.current_message_index = Some(message_idx);
            }
        }
    }
}

/// The tutorial level's hints, in order, with the column of each.
pub open spec fn tutorial_script() -> Seq<(Seq<char>, i32)> {
    seq![
        ("Welcome to The Veiled Path. Press A on Xbox GamePad or Space to Continue"@, 0),
        ("Your goal is to reach the end represented by a circle like you"@, 0),
        ("Control is left stick or arrow on keyboard"@, 0),
        ("A wall is blocking you if you touch it you die"@, 2),
        ("But you are lucky you can change dimension by pressing A or Space. Try It"@, 2),
        ("Be carefull the wall are still in the other dimension."@, 3),
        ("If you switch back inside a wall you die"@, 4),
        ("You can see other dimension here every thing a litle lighter is a wall in the other dimmension"@, 4),
        ("Here the wall is present in both dimension you can't pass it"@, 5),
        ("But maybe one of the wall is actually a closed door. Do you see the grey button in the top of you?"@, 5),
        ("No door open? Are you sure you are in right dimension?"@, 6),
        ("Easy Right? This was only the tutorial real map is a bit more complexe"@, 8),
    ]
}

/// Sets up the tutorial level: switching dimension is locked until the
/// switch column, and the tutorial's hints are queued.
pub fn init_tuto(game_data: &mut GameData, tutorial: &mut Tutorial)
    requires
        old(tutorial).wf(),
    ensures
        final(tutorial).wf(),
        final(tutorial).view().current == old(tutorial).view().current,
        final(tutorial).view().messages.len() == old(tutorial).view().messages.len() + tutorial_script().len(),
        final(tutorial).view().messages.take(old(tutorial).view().messages.len() as int)
            == old(tutorial).view().messages,
        forall|k: int|
            0 <= k < tutorial_script().len() ==> {
                let m = #[trigger] final(tutorial).view().messages[old(tutorial).view().messages.len() + k];
                m.text@ == tutorial_script()[k].0 && m.col == tutorial_script()[k].1
            },
        !final(game_data).dimension_enabled,
        final(game_data).map == old(game_data).map,
        final(game_data).player == old(game_data).player,
        final(game_data).dimension == old(game_data).dimension,
{
    let ghost n = old(tutorial).view().messages.len();
    game_data.dimension_enabled = false;
    tutorial.add_message("Welcome to The Veiled Path. Press A on Xbox GamePad or Space to Continue".to_owned(), 0);
    tutorial.add_message("Your goal is to reach the end represented by a circle like you".to_owned(), 0);
    tutorial.add_message("Control is left stick or arrow on keyboard".to_owned(), 0);
    tutorial.add_message("A wall is blocking you if you touch it you die".to_owned(), 2);
    tutorial.add_message("But you are lucky you can change dimension by pressing A or Space. Try It".to_owned(), 2);
    tutorial.add_message("Be carefull the wall are still in the other dimension.".to_owned(), 3);
    tutorial.add_message("If you switch back inside a wall you die".to_owned(), 4);
    tutorial.add_message("You can see other dimension here every thing a litle lighter is a wall in the other dimmension".to_owned(), 4);
    tutorial.add_message("Here the wall is present in both dimension you can't pass it".to_owned(), 5);
    tutorial.add_message("But maybe one of the wall is actually a closed door. Do you see the grey button in the top of you?".to_owned(), 5);
    tutorial.add_message("No door open? Are you sure you are in right dimension?".to_owned(), 6);
    tutorial.add_message("Easy Right? This was only the tutorial real map is a bit more complexe".to_owned(), 8);
    proof {
        let msgs = tutorial.view().messages;
        assert(msgs.take(n as int) =~= old(tutorial).view().messages);
        assert forall|k: int| 0 <= k < tutorial_script().len() implies {
            let m = #[trigger] msgs[n + k];
            m.text@ == tutorial_script()[k].0 && m.col == tutorial_script()[k].1
        } by {}
    }
}

/// A message brought up at a column and then dismissed is gone for good:
/// when it was the only one tied to that column, checking the column again
/// brings nothing up.
pub proof fn lemma_dismissed_message_stays_gone(t: TutorialView, col: int)
    requires
        view_wf(t),
        t.current is None,
        exists|i: int| 0 <= i < t.messages.len() && #[trigger] t.messages[i].col == col,
        forall|i: int, j: int|
            0 <= i < t.messages.len() && 0 <= j < t.messages.len() && #[trigger] t.messages[i].col == col
                && #[trigger] t.messages[j].col == col ==> i == j,
    ensures
        checked(t, col).current is Some,
        view_wf(checked(t, col)),
        dismissed(checked(t, col)).messages.len() == t.messages.len() - 1,
        forall|j: int|
            0 <= j < dismissed(checked(t, col)).messages.len() ==> #[trigger] dismissed(
                checked(t, col),
            ).messages[j].col != col,
        checked(dismissed(checked(t, col)), col).current is None,
{
    lemma_first_at_bounds(t.messages, col);
    let i = first_at(t.messages, col).unwrap();
    let rest = t.messages.remove(i);
    assert forall|j: int| 0 <= j < rest.len() implies #[trigger] rest[j].col != col by {
        if j < i {
            assert(rest[j] == t.messages[j]);
        } else {
            assert(rest[j] == t.messages[j + 1]);
        }
    }
    lemma_first_at_bounds(rest, col);
}

} // verus!
