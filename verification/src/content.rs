//! The administrative content store: game state, characters, dialogues and
//! error reports, with the administrator guard in front of every mutation.
//!
//! The store itself carries no authorization; the `admin_*` and `report_*`
//! functions pair it with the identity subsystem's guard, so every
//! administrative call performs the same check in the same place.

use crate::system::{admin_check_error, session_check_error, AuthSystem};
use crate::AuthError;
use vstd::prelude::*;

verus! {

/// A game character shown to players.
#[derive(Debug)]
pub struct Character {
    pub character_id: u32,
    pub name: String,
    pub short_desc: String,
    pub full_desc: String,
    pub image: String,
}

impl Clone for Character {
    fn clone(&self) -> (res: Self)
        ensures
            res == *self,
    {
        Character {
            character_id: self.character_id,
            name: self.name.clone(),
            short_desc: self.short_desc.clone(),
            full_desc: self.full_desc.clone(),
            image: self.image.clone(),
        }
    }
}

/// A dialogue, optionally attached to a quest.
#[derive(Debug)]
pub struct Dialogue {
    pub dialogue_id: u32,
    pub quest_id: Option<u32>,
    pub name: String,
    pub is_skippable: bool,
}

impl Clone for Dialogue {
    fn clone(&self) -> (res: Self)
        ensures
            res == *self,
    {
        Dialogue {
            dialogue_id: self.dialogue_id,
            quest_id: self.quest_id,
            name: self.name.clone(),
            is_skippable: self.is_skippable,
        }
    }
}

/// One line of a dialogue, spoken by a character.
#[derive(Debug)]
pub struct DialoguePart {
    pub dialogue_id: u32,
    pub part_id: u32,
    pub character_id: u32,
    pub text: String,
}

impl Clone for DialoguePart {
    fn clone(&self) -> (res: Self)
        ensures
            res == *self,
    {
        DialoguePart {
            dialogue_id: self.dialogue_id,
            part_id: self.part_id,
            character_id: self.character_id,
            text: self.text.clone(),
        }
    }
}

/// A report filed by a player: an error or a suggestion.
#[derive(Debug)]
pub struct ErrorReport {
    pub title: String,
    pub message: String,
}

impl Clone for ErrorReport {
    fn clone(&self) -> (res: Self)
        ensures
            res == *self,
    {
        ErrorReport { title: self.title.clone(), message: self.message.clone() }
    }
}

/// Whether the game is paused, as handed to clients.
#[derive(Debug, Clone, Copy, PartialEq, Eq, Structural)]
pub struct PauseState {
    pub paused: bool,
}

/// The characters without the one of this id, order kept.
pub open spec fn without_character(s: Seq<Character>, id: u32) -> Seq<Character>
    decreases s.len(),
{
    if s.len() == 0 {
        Seq::empty()
    } else if s.last().character_id == id {
        without_character(s.drop_last(), id)
    } else {
        without_character(s.drop_last(), id).push(s.last())
    }
}

/// The dialogues without the one of this id, order kept.
pub open spec fn without_dialogue(s: Seq<Dialogue>, id: u32) -> Seq<Dialogue>
    decreases s.len(),
{
    if s.len() == 0 {
        Seq::empty()
    } else if s.last().dialogue_id == id {
        without_dialogue(s.drop_last(), id)
    } else {
        without_dialogue(s.drop_last(), id).push(s.last())
    }
}

/// The dialogue parts without those of this dialogue, order kept.
pub open spec fn without_parts_of(s: Seq<DialoguePart>, id: u32) -> Seq<DialoguePart>
    decreases s.len(),
{
    if s.len() == 0 {
        Seq::empty()
    } else if s.last().dialogue_id == id {
        without_parts_of(s.drop_last(), id)
    } else {
        without_parts_of(s.drop_last(), id).push(s.last())
    }
}

/// The dialogue parts of this dialogue, in store order.
pub open spec fn parts_of(s: Seq<DialoguePart>, id: u32) -> Seq<DialoguePart>
    decreases s.len(),
{
    if s.len() == 0 {
        Seq::empty()
    } else if s.last().dialogue_id == id {
        parts_of(s.drop_last(), id).push(s.last())
    } else {
        parts_of(s.drop_last(), id)
    }
}

/// The dialogues not attached to any quest, in store order.
pub open spec fn unused_dialogues(s: Seq<Dialogue>) -> Seq<Dialogue>
    decreases s.len(),
{
    if s.len() == 0 {
        Seq::empty()
    } else if s.last().quest_id is None {
        unused_dialogues(s.drop_last()).push(s.last())
    } else {
        unused_dialogues(s.drop_last())
    }
}

/// What one quest stage presents: a dialogue or a task, by id.
#[derive(Debug, Clone, Copy, PartialEq, Eq, Structural)]
pub enum QuestStageContent {
    Dialogue(u32),
    Task(u32),
}

/// A quest stage as handed to clients: its position, its content and the
/// content's display name.
#[derive(Debug)]
pub struct QuestStage {
    pub stage_id: u32,
    pub content_id: u32,
    pub stage_type: String,
    pub name: String,
}

/// The highest stage position this quest uses; zero when it has none.
pub open spec fn max_stage(s: Seq<(u32, u32, QuestStageContent)>, q: u32) -> u32
    decreases s.len(),
{
    if s.len() == 0 {
        0
    } else if s.last().0 == q && s.last().1 > max_stage(s.drop_last(), q) {
        s.last().1
    } else {
        max_stage(s.drop_last(), q)
    }
}

/// The stage rows of this quest, in store order.
pub open spec fn stages_of(
    s: Seq<(u32, u32, QuestStageContent)>,
    q: u32,
) -> Seq<(u32, u32, QuestStageContent)>
    decreases s.len(),
{
    if s.len() == 0 {
        Seq::empty()
    } else if s.last().0 == q {
        stages_of(s.drop_last(), q).push(s.last())
    } else {
        stages_of(s.drop_last(), q)
    }
}

/// The stage rows without the one at this position of this quest.
pub open spec fn without_stage(
    s: Seq<(u32, u32, QuestStageContent)>,
    q: u32,
    pos: u32,
) -> Seq<(u32, u32, QuestStageContent)>
    decreases s.len(),
{
    if s.len() == 0 {
        Seq::empty()
    } else if s.last().0 == q && s.last().1 == pos {
        without_stage(s.drop_last(), q, pos)
    } else {
        without_stage(s.drop_last(), q, pos).push(s.last())
    }
}

/// One stage row after a reorder that exchanges positions `a` and `b`
/// within quest `q`: rows of other quests and other positions stand still.
pub open spec fn stage_swapped(
    rec: (u32, u32, QuestStageContent),
    q: u32,
    a: u32,
    b: u32,
) -> (u32, u32, QuestStageContent) {
    if rec.0 == q && rec.1 == a {
        (q, b, rec.2)
    } else if rec.0 == q && rec.1 == b {
        (q, a, rec.2)
    } else {
        rec
    }
}

/// The display name of this dialogue, if it exists: the first match in
/// store order.
pub open spec fn dialogue_name(s: Seq<Dialogue>, id: u32) -> Option<Seq<char>>
    decreases s.len(),
{
    if s.len() == 0 {
        None
    } else if s[0].dialogue_id == id {
        Some(s[0].name@)
    } else {
        dialogue_name(s.drop_first(), id)
    }
}

/// Searching a dialogue-free prefix does not change the name lookup.
proof fn lemma_dialogue_name_skip(s: Seq<Dialogue>, id: u32, i: int)
    requires
        0 <= i <= s.len(),
        forall|j: int| 0 <= j < i ==> s[j].dialogue_id != id,
    ensures
        dialogue_name(s, id) == dialogue_name(s.skip(i), id),
    decreases i,
{
    if i > 0 {
        assert(s.skip(i - 1)[0] == s[i - 1]);
        assert(s.skip(i - 1).drop_first() =~= s.skip(i));
        lemma_dialogue_name_skip(s, id, i - 1);
    } else {
        assert(s.skip(0) =~= s);
    }
}

/// The content store: everything the administrative surface manages.
pub struct ContentStore {
    paused: bool,
    tutorial_quest: Option<u32>,
    characters: Vec<Character>,
    next_character_id: u32,
    dialogues: Vec<Dialogue>,
    dialogue_parts: Vec<DialoguePart>,
    next_dialogue_id: u32,
    quest_stages: Vec<(u32, u32, QuestStageContent)>,
    error_reports: Vec<ErrorReport>,
    suggestions: Vec<ErrorReport>,
}

impl ContentStore {
    /// Whether the game is paused for non-administrators.
    pub closed spec fn paused(&self) -> bool {
        self.paused
    }

    /// The quest selected as the tutorial, if any.
    pub closed spec fn tutorial_quest(&self) -> Option<u32> {
        self.tutorial_quest
    }

    /// The characters, in creation order.
    pub closed spec fn characters(&self) -> Seq<Character> {
        self.characters@
    }

    /// The id the next character will get.
    pub closed spec fn next_character_id(&self) -> u32 {
        self.next_character_id
    }

    /// The dialogues, in creation order.
    pub closed spec fn dialogues(&self) -> Seq<Dialogue> {
        self.dialogues@
    }

    /// The dialogue parts, in insertion order.
    pub closed spec fn dialogue_parts(&self) -> Seq<DialoguePart> {
        self.dialogue_parts@
    }

    /// The id the next dialogue will get.
    pub closed spec fn next_dialogue_id(&self) -> u32 {
        self.next_dialogue_id
    }

    /// The quest-stage rows: quest, position, content.
    pub closed spec fn quest_stages(&self) -> Seq<(u32, u32, QuestStageContent)> {
        self.quest_stages@
    }

    /// The filed error reports, in filing order.
    pub closed spec fn error_reports(&self) -> Seq<ErrorReport> {
        self.error_reports@
    }

    /// The filed suggestions, in filing order.
    pub closed spec fn suggestions(&self) -> Seq<ErrorReport> {
        self.suggestions@
    }

    /// A fresh store: the game starts paused until an administrator opens
    /// it, with no content and no reports.
    pub fn new() -> (r: ContentStore)
        ensures
            r.paused(),
            r.tutorial_quest() is None,
            r.characters() == Seq::<Character>::empty(),
            r.next_character_id() == 1,
            r.dialogues() == Seq::<Dialogue>::empty(),
            r.dialogue_parts() == Seq::<DialoguePart>::empty(),
            r.next_dialogue_id() == 1,
            r.quest_stages() == Seq::<(u32, u32, QuestStageContent)>::empty(),
            r.error_reports() == Seq::<ErrorReport>::empty(),
            r.suggestions() == Seq::<ErrorReport>::empty(),
    {
        ContentStore {
            paused: true,
            tutorial_quest: None,
            characters: Vec::new(),
            next_character_id: 1,
            dialogues: Vec::new(),
            dialogue_parts: Vec::new(),
            next_dialogue_id: 1,
            quest_stages: Vec::new(),
            error_reports: Vec::new(),
            suggestions: Vec::new(),
        }
    }

    /// Whether the game is paused; the login path reads this.
    pub fn is_paused(&self) -> (r: bool)
        ensures
            r == self.paused(),
    {
        self.paused
    }

    /// The pause state as handed to clients.
    pub fn get_pause(&self) -> (r: PauseState)
        ensures
            r.paused == self.paused(),
    {
        PauseState { paused: self.paused }
    }

    /// Sets the paused flag.
    pub fn game_set_state(&mut self, paused: bool)
        ensures
            final(self).paused() == paused,
            final(self).tutorial_quest() == old(self).tutorial_quest(),
            final(self).characters() == old(self).characters(),
            final(self).next_character_id() == old(self).next_character_id(),
            final(self).dialogues() == old(self).dialogues(),
            final(self).dialogue_parts() == old(self).dialogue_parts(),
            final(self).next_dialogue_id() == old(self).next_dialogue_id(),
            final(self).quest_stages() == old(self).quest_stages(),
            final(self).error_reports() == old(self).error_reports(),
            final(self).suggestions() == old(self).suggestions(),
    {
        self.paused = paused;
    }

    /// Selects the tutorial quest.
    pub fn game_set_tutorial(&mut self, quest_id: u32)
        ensures
            final(self).tutorial_quest() == Some(quest_id),
            final(self).paused() == old(self).paused(),
            final(self).characters() == old(self).characters(),
            final(self).next_character_id() == old(self).next_character_id(),
            final(self).dialogues() == old(self).dialogues(),
            final(self).dialogue_parts() == old(self).dialogue_parts(),
            final(self).next_dialogue_id() == old(self).next_dialogue_id(),
            final(self).quest_stages() == old(self).quest_stages(),
            final(self).error_reports() == old(self).error_reports(),
            final(self).suggestions() == old(self).suggestions(),
    {
        self.tutorial_quest = Some(quest_id);
    }

    /// Creates a character under the next id. An exhausted id space is an
    /// internal error.
    pub fn create_character(
        &mut self,
        name: String,
        short_desc: String,
        full_desc: String,
        image: String,
    ) -> (r: Result<u32, AuthError>)
        ensures
            r == Err::<u32, AuthError>(AuthError::InternalError) <==> old(self).next_character_id()
                == u32::MAX,
            r matches Err(e) ==> e == AuthError::InternalError && *final(self) == *old(self),
            final(self).paused() == old(self).paused(),
            final(self).tutorial_quest() == old(self).tutorial_quest(),
            final(self).dialogues() == old(self).dialogues(),
            final(self).dialogue_parts() == old(self).dialogue_parts(),
            final(self).next_dialogue_id() == old(self).next_dialogue_id(),
            final(self).quest_stages() == old(self).quest_stages(),
            final(self).error_reports() == old(self).error_reports(),
            final(self).suggestions() == old(self).suggestions(),
            r matches Ok(id) ==> id == old(self).next_character_id() && final(self).next_character_id() == id + 1 && final(self).characters() == old(self).characters().push(
                (Character { character_id: id, name, short_desc, full_desc, image }),
            ),
    {
        if self.next_character_id == u32::MAX {
            return Err(AuthError::InternalError);
        }
        let id = self.next_character_id;
        self.characters.push(Character { character_id: id, name, short_desc, full_desc, image });
        self.next_character_id = id + 1;
        Ok(id)
    }

    /// Deletes the character of this id; unknown ids are a no-op.
    #[verifier::loop_isolation(false)]
    pub fn delete_character(&mut self, character_id: u32)
        ensures
            final(self).characters() == without_character(old(self).characters(), character_id),
            final(self).paused() == old(self).paused(),
            final(self).tutorial_quest() == old(self).tutorial_quest(),
            final(self).next_character_id() == old(self).next_character_id(),
            final(self).dialogues() == old(self).dialogues(),
            final(self).dialogue_parts() == old(self).dialogue_parts(),
            final(self).next_dialogue_id() == old(self).next_dialogue_id(),
            final(self).quest_stages() == old(self).quest_stages(),
            final(self).error_reports() == old(self).error_reports(),
            final(self).suggestions() == old(self).suggestions(),
    {
        let n = self.characters.len();
        let mut kept: Vec<Character> = Vec::new();
        let ghost orig = self.characters@;
        for i in 0..n
            invariant
                n == orig.len(),
                self.characters@ == orig,
                kept@ == without_character(orig.subrange(0, i as int), character_id),
        {
            proof {
                let sub = orig.subrange(0, i + 1);
                assert(sub.drop_last() =~= orig.subrange(0, i as int));
                assert(sub.last() == orig[i as int]);
            }
            if self.characters[i].character_id != character_id {
                let rec = self.characters[i].clone();
                kept.push(rec);
            }
        }
        proof {
            assert(orig.subrange(0, n as int) =~= orig);
        }
        self.characters = kept;
    }

    /// Every character, in creation order.
    #[verifier::loop_isolation(false)]
    pub fn get_all_characters(&self) -> (r: Vec<Character>)
        ensures
            r@ == self.characters(),
    {
        let n = self.characters.len();
        let mut out: Vec<Character> = Vec::new();
        for i in 0..n
            invariant
                n == self.characters.len(),
                out@ == self.characters@.subrange(0, i as int),
        {
            let rec = self.characters[i].clone();
            out.push(rec);
            proof {
                assert(out@ =~= self.characters@.subrange(0, i + 1));
            }
        }
        proof {
            assert(self.characters@.subrange(0, n as int) =~= self.characters@);
        }
        out
    }

    /// The character of this id, if any.
    #[verifier::loop_isolation(false)]
    pub fn get_character(&self, character_id: u32) -> (r: Option<&Character>)
        ensures
            r matches Some(c) ==> c.character_id == character_id && exists|i: int|
                0 <= i < self.characters().len() && self.characters()[i] == *c,
            r is None ==> forall|i: int|
                0 <= i < self.characters().len() ==> (#[trigger] self.characters()[i]).character_id
                    != character_id,
    {
        let n = self.characters.len();
        for i in 0..n
            invariant
                n == self.characters.len(),
                forall|j: int|
                    0 <= j < i ==> (#[trigger] self.characters@[j]).character_id != character_id,
        {
            if self.characters[i].character_id == character_id {
                let found = &self.characters[i];
                proof {
                    assert(self.characters()[i as int] == *found);
                }
                return Some(found);
            }
        }
        None
    }

    /// Creates a dialogue under the next id.
    pub fn create_dialogue(
        &mut self,
        quest_id: Option<u32>,
        name: String,
        is_skippable: bool,
    ) -> (r: Result<u32, AuthError>)
        ensures
            r == Err::<u32, AuthError>(AuthError::InternalError) <==> old(self).next_dialogue_id()
                == u32::MAX,
            r matches Err(e) ==> e == AuthError::InternalError && *final(self) == *old(self),
            final(self).paused() == old(self).paused(),
            final(self).tutorial_quest() == old(self).tutorial_quest(),
            final(self).characters() == old(self).characters(),
            final(self).next_character_id() == old(self).next_character_id(),
            final(self).dialogue_parts() == old(self).dialogue_parts(),
            final(self).quest_stages() == old(self).quest_stages(),
            final(self).error_reports() == old(self).error_reports(),
            final(self).suggestions() == old(self).suggestions(),
            r matches Ok(id) ==> id == old(self).next_dialogue_id() && final(self).next_dialogue_id() == id + 1 && final(self).dialogues() == old(self).dialogues().push(
                (Dialogue { dialogue_id: id, quest_id, name, is_skippable }),
            ),
    {
        if self.next_dialogue_id == u32::MAX {
            return Err(AuthError::InternalError);
        }
        let id = self.next_dialogue_id;
        self.dialogues.push(Dialogue { dialogue_id: id, quest_id, name, is_skippable });
        self.next_dialogue_id = id + 1;
        Ok(id)
    }

    /// Deletes the dialogue of this id; unknown ids are a no-op.
    #[verifier::loop_isolation(false)]
    pub fn delete_dialogue(&mut self, dialogue_id: u32)
        ensures
            final(self).dialogues() == without_dialogue(old(self).dialogues(), dialogue_id),
            final(self).paused() == old(self).paused(),
            final(self).tutorial_quest() == old(self).tutorial_quest(),
            final(self).characters() == old(self).characters(),
            final(self).next_character_id() == old(self).next_character_id(),
            final(self).dialogue_parts() == old(self).dialogue_parts(),
            final(self).next_dialogue_id() == old(self).next_dialogue_id(),
            final(self).quest_stages() == old(self).quest_stages(),
            final(self).error_reports() == old(self).error_reports(),
            final(self).suggestions() == old(self).suggestions(),
    {
        let n = self.dialogues.len();
        let mut kept: Vec<Dialogue> = Vec::new();
        let ghost orig = self.dialogues@;
        for i in 0..n
            invariant
                n == orig.len(),
                self.dialogues@ == orig,
                kept@ == without_dialogue(orig.subrange(0, i as int), dialogue_id),
        {
            proof {
                let sub = orig.subrange(0, i + 1);
                assert(sub.drop_last() =~= orig.subrange(0, i as int));
                assert(sub.last() == orig[i as int]);
            }
            if self.dialogues[i].dialogue_id != dialogue_id {
                let rec = self.dialogues[i].clone();
                kept.push(rec);
            }
        }
        proof {
            assert(orig.subrange(0, n as int) =~= orig);
        }
        self.dialogues = kept;
    }

    /// Every dialogue, in creation order.
    #[verifier::loop_isolation(false)]
    pub fn get_all_dialogues(&self) -> (r: Vec<Dialogue>)
        ensures
            r@ == self.dialogues(),
    {
        let n = self.dialogues.len();
        let mut out: Vec<Dialogue> = Vec::new();
        for i in 0..n
            invariant
                n == self.dialogues.len(),
                out@ == self.dialogues@.subrange(0, i as int),
        {
            let rec = self.dialogues[i].clone();
            out.push(rec);
            proof {
                assert(out@ =~= self.dialogues@.subrange(0, i + 1));
            }
        }
        proof {
            assert(self.dialogues@.subrange(0, n as int) =~= self.dialogues@);
        }
        out
    }

    /// The dialogues not attached to any quest.
    #[verifier::loop_isolation(false)]
    pub fn get_unused_dialogues(&self) -> (r: Vec<Dialogue>)
        ensures
            r@ == unused_dialogues(self.dialogues()),
    {
        let n = self.dialogues.len();
        let mut out: Vec<Dialogue> = Vec::new();
        for i in 0..n
            invariant
                n == self.dialogues.len(),
                out@ == unused_dialogues(self.dialogues@.subrange(0, i as int)),
        {
            proof {
                let sub = self.dialogues@.subrange(0, i + 1);
                assert(sub.drop_last() =~= self.dialogues@.subrange(0, i as int));
                assert(sub.last() == self.dialogues@[i as int]);
            }
            if self.dialogues[i].quest_id.is_none() {
                let rec = self.dialogues[i].clone();
                out.push(rec);
            }
        }
        proof {
            assert(self.dialogues@.subrange(0, n as int) =~= self.dialogues@);
        }
        out
    }

    /// Appends this dialogue's lines, numbered from zero in the order
    /// given; an empty list is refused.
    #[verifier::loop_isolation(false)]
    pub fn set_dialogue_parts(&mut self, dialogue_id: u32, parts: &Vec<(u32, String)>) -> (r:
        Result<(), AuthError>)
        requires
            parts@.len() <= u32::MAX,
        ensures
            final(self).paused() == old(self).paused(),
            final(self).tutorial_quest() == old(self).tutorial_quest(),
            final(self).characters() == old(self).characters(),
            final(self).next_character_id() == old(self).next_character_id(),
            final(self).dialogues() == old(self).dialogues(),
            final(self).next_dialogue_id() == old(self).next_dialogue_id(),
            final(self).quest_stages() == old(self).quest_stages(),
            final(self).error_reports() == old(self).error_reports(),
            final(self).suggestions() == old(self).suggestions(),
            r == Err::<(), AuthError>(AuthError::InternalError) <==> parts@.len() == 0,
            r matches Err(_) ==> final(self).dialogue_parts() == old(self).dialogue_parts(),
            r is Ok ==> ({
                &&& final(self).dialogue_parts().len() == old(self).dialogue_parts().len()
                    + parts@.len()
                &&& final(self).dialogue_parts().subrange(
                    0,
                    old(self).dialogue_parts().len() as int,
                ) == old(self).dialogue_parts()
                &&& forall|k: int|
                    0 <= k < parts@.len() ==> final(self).dialogue_parts()[old(self).dialogue_parts().len() + k] == (DialoguePart {
                        dialogue_id,
                        part_id: k as u32,
                        character_id: parts@[k].0,
                        text: parts@[k].1,
                    })
            }),
    {
        if parts.len() == 0 {
            return Err(AuthError::InternalError);
        }
        let n = parts.len();
        let ghost orig = self.dialogue_parts@;
        for k in 0..n
            invariant
                n == parts@.len(),
                self.paused == old(self).paused(),
                self.tutorial_quest == old(self).tutorial_quest(),
                self.characters@ == old(self).characters(),
                self.next_character_id == old(self).next_character_id(),
                self.dialogues@ == old(self).dialogues(),
                self.next_dialogue_id == old(self).next_dialogue_id(),
                self.quest_stages@ == old(self).quest_stages(),
                self.error_reports@ == old(self).error_reports(),
                self.suggestions@ == old(self).suggestions(),
                self.dialogue_parts@.len() == orig.len() + k,
                self.dialogue_parts@.subrange(0, orig.len() as int) == orig,
                forall|j: int|
                    0 <= j < k ==> self.dialogue_parts@[orig.len() + j] == (DialoguePart {
                        dialogue_id,
                        part_id: j as u32,
                        character_id: parts@[j].0,
                        text: parts@[j].1,
                    }),
        {
            let text = parts[k].1.clone();
            let rec = DialoguePart {
                dialogue_id,
                part_id: k as u32,
                character_id: parts[k].0,
                text,
            };
            self.dialogue_parts.push(rec);
            proof {
                assert(self.dialogue_parts@.subrange(0, orig.len() as int) =~= orig);
            }
        }
        Ok(())
    }

    /// The lines of this dialogue, in insertion order.
    #[verifier::loop_isolation(false)]
    pub fn get_dialogue_parts(&self, dialogue_id: u32) -> (r: Vec<DialoguePart>)
        ensures
            r@ == parts_of(self.dialogue_parts(), dialogue_id),
    {
        let n = self.dialogue_parts.len();
        let mut out: Vec<DialoguePart> = Vec::new();
        for i in 0..n
            invariant
                n == self.dialogue_parts.len(),
                out@ == parts_of(self.dialogue_parts@.subrange(0, i as int), dialogue_id),
        {
            proof {
                let sub = self.dialogue_parts@.subrange(0, i + 1);
                assert(sub.drop_last() =~= self.dialogue_parts@.subrange(0, i as int));
                assert(sub.last() == self.dialogue_parts@[i as int]);
            }
            if self.dialogue_parts[i].dialogue_id == dialogue_id {
                let rec = self.dialogue_parts[i].clone();
                out.push(rec);
            }
        }
        proof {
            assert(self.dialogue_parts@.subrange(0, n as int) =~= self.dialogue_parts@);
        }
        out
    }

    /// Removes every line of this dialogue.
    #[verifier::loop_isolation(false)]
    pub fn delete_dialogue_parts(&mut self, dialogue_id: u32)
        ensures
            final(self).dialogue_parts() == without_parts_of(
                old(self).dialogue_parts(),
                dialogue_id,
            ),
            final(self).paused() == old(self).paused(),
            final(self).tutorial_quest() == old(self).tutorial_quest(),
            final(self).characters() == old(self).characters(),
            final(self).next_character_id() == old(self).next_character_id(),
            final(self).dialogues() == old(self).dialogues(),
            final(self).next_dialogue_id() == old(self).next_dialogue_id(),
            final(self).quest_stages() == old(self).quest_stages(),
            final(self).error_reports() == old(self).error_reports(),
            final(self).suggestions() == old(self).suggestions(),
    {
        let n = self.dialogue_parts.len();
        let mut kept: Vec<DialoguePart> = Vec::new();
        let ghost orig = self.dialogue_parts@;
        for i in 0..n
            invariant
                n == orig.len(),
                self.dialogue_parts@ == orig,
                kept@ == without_parts_of(orig.subrange(0, i as int), dialogue_id),
        {
            proof {
                let sub = orig.subrange(0, i + 1);
                assert(sub.drop_last() =~= orig.subrange(0, i as int));
                assert(sub.last() == orig[i as int]);
            }
            if self.dialogue_parts[i].dialogue_id != dialogue_id {
                let rec = self.dialogue_parts[i].clone();
                kept.push(rec);
            }
        }
        proof {
            assert(orig.subrange(0, n as int) =~= orig);
        }
        self.dialogue_parts = kept;
    }

    /// Files an error report.
    pub fn add_error(&mut self, title: String, message: String)
        ensures
            final(self).error_reports() == old(self).error_reports().push(
                (ErrorReport { title, message }),
            ),
            final(self).paused() == old(self).paused(),
            final(self).tutorial_quest() == old(self).tutorial_quest(),
            final(self).characters() == old(self).characters(),
            final(self).next_character_id() == old(self).next_character_id(),
            final(self).dialogues() == old(self).dialogues(),
            final(self).dialogue_parts() == old(self).dialogue_parts(),
            final(self).next_dialogue_id() == old(self).next_dialogue_id(),
            final(self).quest_stages() == old(self).quest_stages(),
            final(self).suggestions() == old(self).suggestions(),
    {
        self.error_reports.push(ErrorReport { title, message });
    }

    /// Files a suggestion.
    pub fn add_suggestion(&mut self, title: String, message: String)
        ensures
            final(self).suggestions() == old(self).suggestions().push(
                (ErrorReport { title, message }),
            ),
            final(self).paused() == old(self).paused(),
            final(self).tutorial_quest() == old(self).tutorial_quest(),
            final(self).characters() == old(self).characters(),
            final(self).next_character_id() == old(self).next_character_id(),
            final(self).dialogues() == old(self).dialogues(),
            final(self).dialogue_parts() == old(self).dialogue_parts(),
            final(self).next_dialogue_id() == old(self).next_dialogue_id(),
            final(self).quest_stages() == old(self).quest_stages(),
            final(self).error_reports() == old(self).error_reports(),
    {
        self.suggestions.push(ErrorReport { title, message });
    }

    /// Every filed error report, in filing order.
    #[verifier::loop_isolation(false)]
    pub fn get_reports(&self) -> (r: Vec<ErrorReport>)
        ensures
            r@ == self.error_reports(),
    {
        let n = self.error_reports.len();
        let mut out: Vec<ErrorReport> = Vec::new();
        for i in 0..n
            invariant
                n == self.error_reports.len(),
                out@ == self.error_reports@.subrange(0, i as int),
        {
            let rec = self.error_reports[i].clone();
            out.push(rec);
            proof {
                assert(out@ =~= self.error_reports@.subrange(0, i + 1));
            }
        }
        proof {
            assert(self.error_reports@.subrange(0, n as int) =~= self.error_reports@);
        }
        out
    }

    /// The dialogue of this id, if any; the first match in store order.
    #[verifier::loop_isolation(false)]
    pub fn get_dialogue(&self, dialogue_id: u32) -> (r: Option<&Dialogue>)
        ensures
            r matches Some(d) ==> d.dialogue_id == dialogue_id && dialogue_name(
                self.dialogues(),
                dialogue_id,
            ) == Some(d.name@),
            r is None ==> dialogue_name(self.dialogues(), dialogue_id) is None,
    {
        let n = self.dialogues.len();
        for i in 0..n
            invariant
                n == self.dialogues.len(),
                forall|j: int| 0 <= j < i ==> self.dialogues@[j].dialogue_id != dialogue_id,
        {
            if self.dialogues[i].dialogue_id == dialogue_id {
                let found = &self.dialogues[i];
                proof {
                    lemma_dialogue_name_skip(self.dialogues(), dialogue_id, i as int);
                    assert(self.dialogues().skip(i as int)[0] == self.dialogues()[i as int]);
                }
                return Some(found);
            }
        }
        proof {
            lemma_dialogue_name_skip(self.dialogues(), dialogue_id, n as int);
            assert(self.dialogues().skip(n as int) =~= Seq::<Dialogue>::empty());
        }
        None
    }

    /// The highest stage position this quest uses.
    #[verifier::loop_isolation(false)]
    pub fn max_stage_of_quest(&self, quest_id: u32) -> (r: u32)
        ensures
            r == max_stage(self.quest_stages(), quest_id),
    {
        let n = self.quest_stages.len();
        let mut m: u32 = 0;
        for i in 0..n
            invariant
                n == self.quest_stages.len(),
                m == max_stage(self.quest_stages@.subrange(0, i as int), quest_id),
        {
            proof {
                let sub = self.quest_stages@.subrange(0, i + 1);
                assert(sub.drop_last() =~= self.quest_stages@.subrange(0, i as int));
                assert(sub.last() == self.quest_stages@[i as int]);
            }
            if self.quest_stages[i].0 == quest_id && self.quest_stages[i].1 > m {
                m = self.quest_stages[i].1;
            }
        }
        proof {
            assert(self.quest_stages@.subrange(0, n as int) =~= self.quest_stages@);
        }
        m
    }

    /// The position the next stage of this quest will get.
    pub fn next_quest_stage_id(&self, quest_id: u32) -> (r: Result<u32, AuthError>)
        ensures
            r == Err::<u32, AuthError>(AuthError::InternalError) <==> max_stage(
                self.quest_stages(),
                quest_id,
            ) == u32::MAX,
            r matches Ok(p) ==> p == max_stage(self.quest_stages(), quest_id) + 1,
    {
        let m = self.max_stage_of_quest(quest_id);
        if m == u32::MAX {
            Err(AuthError::InternalError)
        } else {
            Ok(m + 1)
        }
    }

    /// Appends a stage to this quest at the next free position.
    pub fn add_quest_stage(&mut self, quest_id: u32, content: QuestStageContent) -> (r: Result<
        u32,
        AuthError,
    >)
        ensures
            final(self).paused() == old(self).paused(),
            final(self).tutorial_quest() == old(self).tutorial_quest(),
            final(self).characters() == old(self).characters(),
            final(self).next_character_id() == old(self).next_character_id(),
            final(self).dialogues() == old(self).dialogues(),
            final(self).dialogue_parts() == old(self).dialogue_parts(),
            final(self).next_dialogue_id() == old(self).next_dialogue_id(),
            final(self).error_reports() == old(self).error_reports(),
            final(self).suggestions() == old(self).suggestions(),
            r == Err::<u32, AuthError>(AuthError::InternalError) <==> max_stage(
                old(self).quest_stages(),
                quest_id,
            ) == u32::MAX,
            r matches Err(_) ==> final(self).quest_stages() == old(self).quest_stages(),
            r matches Ok(p) ==> p == max_stage(old(self).quest_stages(), quest_id) + 1 && final(self).quest_stages() == old(self).quest_stages().push((quest_id, p, content)),
    {
        let m = self.max_stage_of_quest(quest_id);
        if m == u32::MAX {
            return Err(AuthError::InternalError);
        }
        self.quest_stages.push((quest_id, m + 1, content));
        Ok(m + 1)
    }

    /// Removes the stage at this position of this quest; unknown positions
    /// are a no-op.
    #[verifier::loop_isolation(false)]
    pub fn delete_quest_stage(&mut self, quest_id: u32, stage_id: u32)
        ensures
            final(self).quest_stages() == without_stage(
                old(self).quest_stages(),
                quest_id,
                stage_id,
            ),
            final(self).paused() == old(self).paused(),
            final(self).tutorial_quest() == old(self).tutorial_quest(),
            final(self).characters() == old(self).characters(),
            final(self).next_character_id() == old(self).next_character_id(),
            final(self).dialogues() == old(self).dialogues(),
            final(self).dialogue_parts() == old(self).dialogue_parts(),
            final(self).next_dialogue_id() == old(self).next_dialogue_id(),
            final(self).error_reports() == old(self).error_reports(),
            final(self).suggestions() == old(self).suggestions(),
    {
        let n = self.quest_stages.len();
        let mut kept: Vec<(u32, u32, QuestStageContent)> = Vec::new();
        let ghost orig = self.quest_stages@;
        for i in 0..n
            invariant
                n == orig.len(),
                self.quest_stages@ == orig,
                kept@ == without_stage(orig.subrange(0, i as int), quest_id, stage_id),
        {
            proof {
                let sub = orig.subrange(0, i + 1);
                assert(sub.drop_last() =~= orig.subrange(0, i as int));
                assert(sub.last() == orig[i as int]);
            }
            if !(self.quest_stages[i].0 == quest_id && self.quest_stages[i].1 == stage_id) {
                let rec = self.quest_stages[i];
                kept.push(rec);
            }
        }
        proof {
            assert(orig.subrange(0, n as int) =~= orig);
        }
        self.quest_stages = kept;
    }

    /// This quest's stages as presented to clients, in store order: a
    /// dialogue stage carries its dialogue's name, a task stage its id.
    #[verifier::loop_isolation(false)]
    pub fn get_all_quest_stages(&self, quest_id: u32) -> (r: Vec<QuestStage>)
        ensures
            r@.len() == stages_of(self.quest_stages(), quest_id).len(),
            forall|k: int|
                0 <= k < r@.len() ==> stage_presented(
                    stages_of(self.quest_stages(), quest_id)[k],
                    self.dialogues(),
                    #[trigger] r@[k],
                ),
    {
        let n = self.quest_stages.len();
        let mut out: Vec<QuestStage> = Vec::new();
        for i in 0..n
            invariant
                n == self.quest_stages.len(),
                out@.len() == stages_of(self.quest_stages@.subrange(0, i as int), quest_id).len(),
                forall|k: int|
                    0 <= k < out@.len() ==> stage_presented(
                        stages_of(self.quest_stages@.subrange(0, i as int), quest_id)[k],
                        self.dialogues@,
                        #[trigger] out@[k],
                    ),
        {
            proof {
                let sub = self.quest_stages@.subrange(0, i + 1);
                assert(sub.drop_last() =~= self.quest_stages@.subrange(0, i as int));
                assert(sub.last() == self.quest_stages@[i as int]);
            }
            let row = self.quest_stages[i];
            if row.0 == quest_id {
                let stage = match row.2 {
                    QuestStageContent::Dialogue(d) => {
                        let name = match self.get_dialogue(d) {
                            Some(dialogue) => dialogue.name.clone(),
                            None => String::new(),
                        };
                        QuestStage {
                            stage_id: row.1,
                            content_id: d,
                            stage_type: "dialogue".to_owned(),
                            name,
                        }
                    },
                    QuestStageContent::Task(t) => QuestStage {
                        stage_id: row.1,
                        content_id: t,
                        stage_type: "task".to_owned(),
                        name: String::new(),
                    },
                };
                out.push(stage);
            }
        }
        proof {
            assert(self.quest_stages@.subrange(0, n as int) =~= self.quest_stages@);
        }
        out
    }

    /// Exchanges the stages at positions `pos` and `pos + 1` of this quest:
    /// the swap-based reorder, one atomic pass over the rows.
    #[verifier::loop_isolation(false)]
    pub fn change_quest_stage_id_forward(&mut self, quest_id: u32, pos: u32)
        requires
            pos < u32::MAX,
        ensures
            final(self).quest_stages().len() == old(self).quest_stages().len(),
            forall|j: int|
                0 <= j < old(self).quest_stages().len() ==> final(self).quest_stages()[j]
                    == stage_swapped(
                    #[trigger] old(self).quest_stages()[j],
                    quest_id,
                    pos,
                    (pos + 1) as u32,
                ),
            final(self).paused() == old(self).paused(),
            final(self).tutorial_quest() == old(self).tutorial_quest(),
            final(self).characters() == old(self).characters(),
            final(self).next_character_id() == old(self).next_character_id(),
            final(self).dialogues() == old(self).dialogues(),
            final(self).dialogue_parts() == old(self).dialogue_parts(),
            final(self).next_dialogue_id() == old(self).next_dialogue_id(),
            final(self).error_reports() == old(self).error_reports(),
            final(self).suggestions() == old(self).suggestions(),
    {
        self.swap_stage_positions(quest_id, pos, pos + 1);
    }

    /// Exchanges the stages at positions `pos` and `pos - 1` of this quest.
    #[verifier::loop_isolation(false)]
    pub fn change_quest_stage_id_back(&mut self, quest_id: u32, pos: u32)
        requires
            pos >= 1,
        ensures
            final(self).quest_stages().len() == old(self).quest_stages().len(),
            forall|j: int|
                0 <= j < old(self).quest_stages().len() ==> final(self).quest_stages()[j]
                    == stage_swapped(
                    #[trigger] old(self).quest_stages()[j],
                    quest_id,
                    pos,
                    (pos - 1) as u32,
                ),
            final(self).paused() == old(self).paused(),
            final(self).tutorial_quest() == old(self).tutorial_quest(),
            final(self).characters() == old(self).characters(),
            final(self).next_character_id() == old(self).next_character_id(),
            final(self).dialogues() == old(self).dialogues(),
            final(self).dialogue_parts() == old(self).dialogue_parts(),
            final(self).next_dialogue_id() == old(self).next_dialogue_id(),
            final(self).error_reports() == old(self).error_reports(),
            final(self).suggestions() == old(self).suggestions(),
    {
        self.swap_stage_positions(quest_id, pos, pos - 1);
    }

    /// One pass that renumbers position `a` to `b` and `b` to `a` within
    /// this quest.
    #[verifier::loop_isolation(false)]
    fn swap_stage_positions(&mut self, quest_id: u32, a: u32, b: u32)
        ensures
            final(self).quest_stages().len() == old(self).quest_stages().len(),
            forall|j: int|
                0 <= j < old(self).quest_stages().len() ==> final(self).quest_stages()[j]
                    == stage_swapped(#[trigger] old(self).quest_stages()[j], quest_id, a, b),
            final(self).paused() == old(self).paused(),
            final(self).tutorial_quest() == old(self).tutorial_quest(),
            final(self).characters() == old(self).characters(),
            final(self).next_character_id() == old(self).next_character_id(),
            final(self).dialogues() == old(self).dialogues(),
            final(self).dialogue_parts() == old(self).dialogue_parts(),
            final(self).next_dialogue_id() == old(self).next_dialogue_id(),
            final(self).error_reports() == old(self).error_reports(),
            final(self).suggestions() == old(self).suggestions(),
    {
        let n = self.quest_stages.len();
        for i in 0..n
            invariant
                n == self.quest_stages.len(),
                self.quest_stages@.len() == old(self).quest_stages().len(),
                self.paused == old(self).paused(),
                self.tutorial_quest == old(self).tutorial_quest(),
                self.characters@ == old(self).characters(),
                self.next_character_id == old(self).next_character_id(),
                self.dialogues@ == old(self).dialogues(),
                self.dialogue_parts@ == old(self).dialogue_parts(),
                self.next_dialogue_id == old(self).next_dialogue_id(),
                self.error_reports@ == old(self).error_reports(),
                self.suggestions@ == old(self).suggestions(),
                forall|j: int|
                    0 <= j < i ==> self.quest_stages@[j] == stage_swapped(
                        #[trigger] old(self).quest_stages()[j],
                        quest_id,
                        a,
                        b,
                    ),
                forall|j: int|
                    i <= j < n ==> self.quest_stages@[j] == #[trigger] old(self).quest_stages()[j],
        {
            let row = self.quest_stages[i];
            if row.0 == quest_id && row.1 == a {
                self.quest_stages[i] = (quest_id, b, row.2);
            } else if row.0 == quest_id && row.1 == b {
                self.quest_stages[i] = (quest_id, a, row.2);
            }
        }
    }
}

/// How one stored stage row appears to clients: the position and content id
/// carry over; a dialogue stage is typed `dialogue` and named after its
/// dialogue (or left nameless when the dialogue is gone), a task stage is
/// typed `task` and nameless.
pub open spec fn stage_presented(
    row: (u32, u32, QuestStageContent),
    dialogues: Seq<Dialogue>,
    shown: QuestStage,
) -> bool {
    &&& shown.stage_id == row.1
    &&& match row.2 {
        QuestStageContent::Dialogue(d) => shown.content_id == d && shown.stage_type@
            == "dialogue"@ && shown.name@ == match dialogue_name(dialogues, d) {
            Some(n) => n,
            None => Seq::<char>::empty(),
        },
        QuestStageContent::Task(t) => shown.content_id == t && shown.stage_type@ == "task"@
            && shown.name@ == Seq::<char>::empty(),
    }
}


/// Administrative input: a new character.
#[derive(Debug)]
pub struct CharacterAddData {
    pub jwt: String,
    pub name: String,
    pub short_description: String,
    pub full_description: String,
    pub image: String,
}

/// Administrative input: delete a character.
#[derive(Debug)]
pub struct CharacterDeleteData {
    pub jwt: String,
    pub character_id: u32,
}

/// Administrative input: list the characters.
#[derive(Debug)]
pub struct CharacterGetData {
    pub jwt: String,
}

/// Public input: fetch one character.
#[derive(Debug)]
pub struct GetCharacterData {
    pub character_id: u32,
}

/// Administrative input: a new dialogue with its lines.
#[derive(Debug)]
pub struct DialogueAddData {
    pub jwt: String,
    pub quest_id: Option<u32>,
    pub name: String,
    pub is_skippable: bool,
    pub parts: Vec<(u32, String)>,
}

/// Administrative input: delete a dialogue and its lines.
#[derive(Debug)]
pub struct DialogueDeleteData {
    pub jwt: String,
    pub dialogue_id: u32,
}

/// Administrative input: list dialogues.
#[derive(Debug)]
pub struct DialogueGetData {
    pub jwt: String,
}

/// Administrative input: pause the game.
#[derive(Debug)]
pub struct GamePauseData {
    pub jwt: String,
}

/// Administrative input: unpause the game.
#[derive(Debug)]
pub struct GameUnpauseData {
    pub jwt: String,
}

/// Administrative input: select the tutorial quest.
#[derive(Debug)]
pub struct GameSetTutorialData {
    pub jwt: String,
    pub quest_id: u32,
}

/// Player input: file an error report or a suggestion.
#[derive(Debug)]
pub struct ReportData {
    pub jwt: String,
    pub title: String,
    pub message: String,
}

/// Administrative input: list the filed reports.
#[derive(Debug)]
pub struct GetReportsData {
    pub jwt: String,
}

/// Adds a character: the administrator guard, then the store.
pub fn admin_characters_add(
    auth: &AuthSystem,
    content: &mut ContentStore,
    data: &CharacterAddData,
    now: u64,
) -> (r: Result<u32, AuthError>)
    requires
        auth.wf(),
    ensures
        admin_check_error(*auth, data.jwt@, now) matches Some(e) ==> r == Err::<u32, AuthError>(e)
            && *final(content) == *old(content),
        admin_check_error(*auth, data.jwt@, now) is None ==> ({
            &&& (r == Err::<u32, AuthError>(AuthError::InternalError) <==> old(content).next_character_id() == u32::MAX)
            &&& (r matches Err(_) ==> *final(content) == *old(content))
            &&& (r matches Ok(id) ==> id == old(content).next_character_id() && final(content).next_character_id() == id + 1 && final(content).characters() == old(content).characters().push(
                (Character {
                    character_id: id,
                    name: data.name,
                    short_desc: data.short_description,
                    full_desc: data.full_description,
                    image: data.image,
                }),
            ) && final(content).dialogues() == old(content).dialogues())
        }),
{
    if let Err(e) = auth.require_admin(data.jwt.as_str(), now) {
        return Err(e);
    }
    content.create_character(
        data.name.clone(),
        data.short_description.clone(),
        data.full_description.clone(),
        data.image.clone(),
    )
}

/// Deletes a character: the administrator guard, then the store.
pub fn admin_characters_delete(
    auth: &AuthSystem,
    content: &mut ContentStore,
    data: &CharacterDeleteData,
    now: u64,
) -> (r: Result<(), AuthError>)
    requires
        auth.wf(),
    ensures
        admin_check_error(*auth, data.jwt@, now) matches Some(e) ==> r == Err::<(), AuthError>(e)
            && *final(content) == *old(content),
        admin_check_error(*auth, data.jwt@, now) is None ==> r is Ok && final(content).characters()
            == without_character(old(content).characters(), data.character_id) && final(content).dialogues() == old(content).dialogues() && final(content).dialogue_parts() == old(content).dialogue_parts(),
{
    if let Err(e) = auth.require_admin(data.jwt.as_str(), now) {
        return Err(e);
    }
    content.delete_character(data.character_id);
    Ok(())
}

/// Lists the characters: the administrator guard, then the store.
pub fn admin_characters_get(
    auth: &AuthSystem,
    content: &ContentStore,
    data: &CharacterGetData,
    now: u64,
) -> (r: Result<Vec<Character>, AuthError>)
    requires
        auth.wf(),
    ensures
        admin_check_error(*auth, data.jwt@, now) matches Some(e) ==> r == Err::<
            Vec<Character>,
            AuthError,
        >(e),
        admin_check_error(*auth, data.jwt@, now) is None ==> (r matches Ok(v) && v@
            == content.characters()),
{
    if let Err(e) = auth.require_admin(data.jwt.as_str(), now) {
        return Err(e);
    }
    Ok(content.get_all_characters())
}

/// Adds a dialogue together with its lines: the administrator guard, then
/// the store. The dialogue and its lines are two separate inserts, so an
/// empty line list leaves the bare dialogue behind.
pub fn admin_dialogues_add(
    auth: &AuthSystem,
    content: &mut ContentStore,
    data: &DialogueAddData,
    now: u64,
) -> (r: Result<u32, AuthError>)
    requires
        auth.wf(),
        data.parts@.len() <= u32::MAX,
    ensures
        admin_check_error(*auth, data.jwt@, now) matches Some(e) ==> r == Err::<u32, AuthError>(e)
            && *final(content) == *old(content),
        admin_check_error(*auth, data.jwt@, now) is None ==> ({
            &&& (r == Err::<u32, AuthError>(AuthError::InternalError) <==> old(content).next_dialogue_id() == u32::MAX || data.parts@.len() == 0)
            &&& (r matches Ok(id) ==> ({
                &&& id == old(content).next_dialogue_id()
                &&& final(content).next_dialogue_id() == id + 1
                &&& final(content).dialogues() == old(content).dialogues().push(
                    (Dialogue {
                        dialogue_id: id,
                        quest_id: data.quest_id,
                        name: data.name,
                        is_skippable: data.is_skippable,
                    }),
                )
                &&& final(content).dialogue_parts().len() == old(content).dialogue_parts().len()
                    + data.parts@.len()
                &&& final(content).dialogue_parts().subrange(
                    0,
                    old(content).dialogue_parts().len() as int,
                ) == old(content).dialogue_parts()
                &&& forall|k: int|
                    0 <= k < data.parts@.len() ==> final(content).dialogue_parts()[old(content).dialogue_parts().len() + k] == (DialoguePart {
                        dialogue_id: id,
                        part_id: k as u32,
                        character_id: data.parts@[k].0,
                        text: data.parts@[k].1,
                    })
            }))
        }),
{
    if let Err(e) = auth.require_admin(data.jwt.as_str(), now) {
        return Err(e);
    }
    let id = match content.create_dialogue(data.quest_id, data.name.clone(), data.is_skippable) {
        Ok(id) => id,
        Err(e) => {
            return Err(e);
        },
    };
    match content.set_dialogue_parts(id, &data.parts) {
        Ok(_) => Ok(id),
        Err(e) => Err(e),
    }
}

/// Deletes a dialogue and every one of its lines.
pub fn admin_dialogues_delete(
    auth: &AuthSystem,
    content: &mut ContentStore,
    data: &DialogueDeleteData,
    now: u64,
) -> (r: Result<(), AuthError>)
    requires
        auth.wf(),
    ensures
        admin_check_error(*auth, data.jwt@, now) matches Some(e) ==> r == Err::<(), AuthError>(e)
            && *final(content) == *old(content),
        admin_check_error(*auth, data.jwt@, now) is None ==> r is Ok && final(content).dialogues()
            == without_dialogue(old(content).dialogues(), data.dialogue_id) && final(content).dialogue_parts() == without_parts_of(old(content).dialogue_parts(), data.dialogue_id)
            && final(content).characters() == old(content).characters(),
{
    if let Err(e) = auth.require_admin(data.jwt.as_str(), now) {
        return Err(e);
    }
    content.delete_dialogue(data.dialogue_id);
    content.delete_dialogue_parts(data.dialogue_id);
    Ok(())
}

/// Lists every dialogue.
pub fn admin_dialogues_get(
    auth: &AuthSystem,
    content: &ContentStore,
    data: &DialogueGetData,
    now: u64,
) -> (r: Result<Vec<Dialogue>, AuthError>)
    requires
        auth.wf(),
    ensures
        admin_check_error(*auth, data.jwt@, now) matches Some(e) ==> r == Err::<
            Vec<Dialogue>,
            AuthError,
        >(e),
        admin_check_error(*auth, data.jwt@, now) is None ==> (r matches Ok(v) && v@
            == content.dialogues()),
{
    if let Err(e) = auth.require_admin(data.jwt.as_str(), now) {
        return Err(e);
    }
    Ok(content.get_all_dialogues())
}

/// Lists the dialogues not attached to any quest.
pub fn admin_dialogues_get_unused(
    auth: &AuthSystem,
    content: &ContentStore,
    data: &DialogueGetData,
    now: u64,
) -> (r: Result<Vec<Dialogue>, AuthError>)
    requires
        auth.wf(),
    ensures
        admin_check_error(*auth, data.jwt@, now) matches Some(e) ==> r == Err::<
            Vec<Dialogue>,
            AuthError,
        >(e),
        admin_check_error(*auth, data.jwt@, now) is None ==> (r matches Ok(v) && v@
            == unused_dialogues(content.dialogues())),
{
    if let Err(e) = auth.require_admin(data.jwt.as_str(), now) {
        return Err(e);
    }
    Ok(content.get_unused_dialogues())
}

/// Pauses the game for every non-administrator.
pub fn admin_game_pause(
    auth: &AuthSystem,
    content: &mut ContentStore,
    data: &GamePauseData,
    now: u64,
) -> (r: Result<(), AuthError>)
    requires
        auth.wf(),
    ensures
        admin_check_error(*auth, data.jwt@, now) matches Some(e) ==> r == Err::<(), AuthError>(e)
            && *final(content) == *old(content),
        admin_check_error(*auth, data.jwt@, now) is None ==> r is Ok && final(content).paused()
            && final(content).characters() == old(content).characters() && final(content).dialogues() == old(content).dialogues(),
{
    if let Err(e) = auth.require_admin(data.jwt.as_str(), now) {
        return Err(e);
    }
    content.game_set_state(true);
    Ok(())
}

/// Opens the game again.
pub fn admin_game_unpause(
    auth: &AuthSystem,
    content: &mut ContentStore,
    data: &GameUnpauseData,
    now: u64,
) -> (r: Result<(), AuthError>)
    requires
        auth.wf(),
    ensures
        admin_check_error(*auth, data.jwt@, now) matches Some(e) ==> r == Err::<(), AuthError>(e)
            && *final(content) == *old(content),
        admin_check_error(*auth, data.jwt@, now) is None ==> r is Ok && !final(content).paused()
            && final(content).characters() == old(content).characters() && final(content).dialogues() == old(content).dialogues(),
{
    if let Err(e) = auth.require_admin(data.jwt.as_str(), now) {
        return Err(e);
    }
    content.game_set_state(false);
    Ok(())
}

/// Selects the tutorial quest.
pub fn admin_quests_select_tutorial(
    auth: &AuthSystem,
    content: &mut ContentStore,
    data: &GameSetTutorialData,
    now: u64,
) -> (r: Result<(), AuthError>)
    requires
        auth.wf(),
    ensures
        admin_check_error(*auth, data.jwt@, now) matches Some(e) ==> r == Err::<(), AuthError>(e)
            && *final(content) == *old(content),
        admin_check_error(*auth, data.jwt@, now) is None ==> r is Ok && final(content).tutorial_quest() == Some(data.quest_id) && final(content).paused() == old(content).paused(),
{
    if let Err(e) = auth.require_admin(data.jwt.as_str(), now) {
        return Err(e);
    }
    content.game_set_tutorial(data.quest_id);
    Ok(())
}

/// Files an error report from an authenticated player whose account
/// exists.
pub fn report_error(
    auth: &AuthSystem,
    content: &mut ContentStore,
    data: &ReportData,
    now: u64,
) -> (r: Result<(), AuthError>)
    requires
        auth.wf(),
    ensures
        session_check_error(*auth, data.jwt@, now) matches Some(e) ==> r == Err::<(), AuthError>(e)
            && *final(content) == *old(content),
        session_check_error(*auth, data.jwt@, now) is None ==> ({
            let uid = crate::token::jwt_claims(auth.secret(), data.jwt@)->Some_0.0;
            &&& (r == Err::<(), AuthError>(AuthError::UserNotFound) <==> !crate::accounts::has_id(
                auth.users(),
                uid,
            ))
            &&& (r matches Err(_) ==> *final(content) == *old(content))
            &&& (r is Ok ==> final(content).error_reports() == old(content).error_reports().push(
                (ErrorReport { title: data.title, message: data.message }),
            ) && final(content).suggestions() == old(content).suggestions())
        }),
{
    let claims = match auth.require_session(data.jwt.as_str(), now) {
        Ok(c) => c,
        Err(e) => {
            return Err(e);
        },
    };
    if !auth.has_account(claims.uid) {
        return Err(AuthError::UserNotFound);
    }
    content.add_error(data.title.clone(), data.message.clone());
    Ok(())
}

/// Files a suggestion from an authenticated player whose account exists.
pub fn report_suggestion(
    auth: &AuthSystem,
    content: &mut ContentStore,
    data: &ReportData,
    now: u64,
) -> (r: Result<(), AuthError>)
    requires
        auth.wf(),
    ensures
        session_check_error(*auth, data.jwt@, now) matches Some(e) ==> r == Err::<(), AuthError>(e)
            && *final(content) == *old(content),
        session_check_error(*auth, data.jwt@, now) is None ==> ({
            let uid = crate::token::jwt_claims(auth.secret(), data.jwt@)->Some_0.0;
            &&& (r == Err::<(), AuthError>(AuthError::UserNotFound) <==> !crate::accounts::has_id(
                auth.users(),
                uid,
            ))
            &&& (r matches Err(_) ==> *final(content) == *old(content))
            &&& (r is Ok ==> final(content).suggestions() == old(content).suggestions().push(
                (ErrorReport { title: data.title, message: data.message }),
            ) && final(content).error_reports() == old(content).error_reports())
        }),
{
    let claims = match auth.require_session(data.jwt.as_str(), now) {
        Ok(c) => c,
        Err(e) => {
            return Err(e);
        },
    };
    if !auth.has_account(claims.uid) {
        return Err(AuthError::UserNotFound);
    }
    content.add_suggestion(data.title.clone(), data.message.clone());
    Ok(())
}

/// Lists the filed error reports for an administrator.
pub fn admin_get_reports(
    auth: &AuthSystem,
    content: &ContentStore,
    data: &GetReportsData,
    now: u64,
) -> (r: Result<Vec<ErrorReport>, AuthError>)
    requires
        auth.wf(),
    ensures
        admin_check_error(*auth, data.jwt@, now) matches Some(e) ==> r == Err::<
            Vec<ErrorReport>,
            AuthError,
        >(e),
        admin_check_error(*auth, data.jwt@, now) is None ==> (r matches Ok(v) && v@
            == content.error_reports()),
{
    if let Err(e) = auth.require_admin(data.jwt.as_str(), now) {
        return Err(e);
    }
    Ok(content.get_reports())
}


/// Administrative input: append a stage to a quest, carrying either a task
/// or a dialogue.
#[derive(Debug)]
pub struct QuestStageAddData {
    pub jwt: String,
    pub quest_id: u32,
    pub task_id: Option<u32>,
    pub dialogue_id: Option<u32>,
}

/// Administrative input: delete one stage of a quest.
#[derive(Debug)]
pub struct QuestStageDeleteData {
    pub jwt: String,
    pub quest_id: u32,
    pub position: u32,
}

/// Administrative input: list a quest's stages.
#[derive(Debug)]
pub struct QuestStageGetData {
    pub jwt: String,
    pub quest_id: u32,
}

/// Administrative input: move a stage one position back.
#[derive(Debug)]
pub struct QuestStageMoveBackData {
    pub jwt: String,
    pub quest_id: u32,
    pub position: u32,
}

/// Administrative input: move a stage one position forward.
#[derive(Debug)]
pub struct QuestStageMoveForwardData {
    pub jwt: String,
    pub quest_id: u32,
    pub position: u32,
}

/// Appends a stage: the administrator guard, then the store. A task id
/// wins over a dialogue id; a request naming neither changes nothing and
/// still answers success.
pub fn admin_quests_stages_add(
    auth: &AuthSystem,
    content: &mut ContentStore,
    data: &QuestStageAddData,
    now: u64,
) -> (r: Result<(), AuthError>)
    requires
        auth.wf(),
    ensures
        admin_check_error(*auth, data.jwt@, now) matches Some(e) ==> r == Err::<(), AuthError>(e)
            && *final(content) == *old(content),
        admin_check_error(*auth, data.jwt@, now) is None ==> ({
            &&& (data.task_id is None && data.dialogue_id is None ==> r is Ok && *final(content)
                == *old(content))
            &&& (r == Err::<(), AuthError>(AuthError::InternalError) <==> (data.task_id is Some
                || data.dialogue_id is Some) && max_stage(old(content).quest_stages(), data.quest_id)
                == u32::MAX)
            &&& (r is Ok && data.task_id is Some ==> final(content).quest_stages() == old(content).quest_stages().push(
                (
                    data.quest_id,
                    (max_stage(old(content).quest_stages(), data.quest_id) + 1) as u32,
                    QuestStageContent::Task(data.task_id->Some_0),
                ),
            ))
            &&& (r is Ok && data.task_id is None && data.dialogue_id is Some ==> final(content).quest_stages() == old(content).quest_stages().push(
                (
                    data.quest_id,
                    (max_stage(old(content).quest_stages(), data.quest_id) + 1) as u32,
                    QuestStageContent::Dialogue(data.dialogue_id->Some_0),
                ),
            ))
        }),
{
    if let Err(e) = auth.require_admin(data.jwt.as_str(), now) {
        return Err(e);
    }
    let content_kind = match (data.task_id, data.dialogue_id) {
        (Some(t), _) => QuestStageContent::Task(t),
        (None, Some(d)) => QuestStageContent::Dialogue(d),
        (None, None) => {
            return Ok(());
        },
    };
    match content.add_quest_stage(data.quest_id, content_kind) {
        Ok(_) => Ok(()),
        Err(e) => Err(e),
    }
}

/// Deletes one stage: the administrator guard, then the store.
pub fn admin_quests_stages_delete(
    auth: &AuthSystem,
    content: &mut ContentStore,
    data: &QuestStageDeleteData,
    now: u64,
) -> (r: Result<(), AuthError>)
    requires
        auth.wf(),
    ensures
        admin_check_error(*auth, data.jwt@, now) matches Some(e) ==> r == Err::<(), AuthError>(e)
            && *final(content) == *old(content),
        admin_check_error(*auth, data.jwt@, now) is None ==> r is Ok && final(content).quest_stages() == without_stage(
            old(content).quest_stages(),
            data.quest_id,
            data.position,
        ) && final(content).dialogues() == old(content).dialogues(),
{
    if let Err(e) = auth.require_admin(data.jwt.as_str(), now) {
        return Err(e);
    }
    content.delete_quest_stage(data.quest_id, data.position);
    Ok(())
}

/// Lists a quest's stages: the administrator guard, then the store.
pub fn admin_quests_stages_get(
    auth: &AuthSystem,
    content: &ContentStore,
    data: &QuestStageGetData,
    now: u64,
) -> (r: Result<Vec<QuestStage>, AuthError>)
    requires
        auth.wf(),
    ensures
        admin_check_error(*auth, data.jwt@, now) matches Some(e) ==> r == Err::<
            Vec<QuestStage>,
            AuthError,
        >(e),
        admin_check_error(*auth, data.jwt@, now) is None ==> (r matches Ok(v) && v@.len()
            == stages_of(content.quest_stages(), data.quest_id).len() && (forall|k: int|
            0 <= k < v@.len() ==> stage_presented(
                stages_of(content.quest_stages(), data.quest_id)[k],
                content.dialogues(),
                #[trigger] v@[k],
            ))),
{
    if let Err(e) = auth.require_admin(data.jwt.as_str(), now) {
        return Err(e);
    }
    Ok(content.get_all_quest_stages(data.quest_id))
}

/// Moves a stage one position towards the front: positions `position` and
/// `position - 1` change places; position zero has nowhere to go.
pub fn admin_quests_stages_move_back(
    auth: &AuthSystem,
    content: &mut ContentStore,
    data: &QuestStageMoveBackData,
    now: u64,
) -> (r: Result<(), AuthError>)
    requires
        auth.wf(),
    ensures
        admin_check_error(*auth, data.jwt@, now) matches Some(e) ==> r == Err::<(), AuthError>(e)
            && *final(content) == *old(content),
        admin_check_error(*auth, data.jwt@, now) is None ==> ({
            &&& (r == Err::<(), AuthError>(AuthError::InternalError) <==> data.position == 0)
            &&& (r matches Err(_) ==> *final(content) == *old(content))
            &&& (r is Ok ==> final(content).quest_stages().len() == old(content).quest_stages().len() && (forall|j: int|
                0 <= j < old(content).quest_stages().len() ==> final(content).quest_stages()[j]
                    == stage_swapped(
                    #[trigger] old(content).quest_stages()[j],
                    data.quest_id,
                    data.position,
                    (data.position - 1) as u32,
                )))
        }),
{
    if let Err(e) = auth.require_admin(data.jwt.as_str(), now) {
        return Err(e);
    }
    if data.position == 0 {
        return Err(AuthError::InternalError);
    }
    content.change_quest_stage_id_back(data.quest_id, data.position);
    Ok(())
}

/// Moves a stage one position towards the end: positions `position` and
/// `position + 1` change places; the last used position has nowhere to go.
pub fn admin_quests_stages_move_forward(
    auth: &AuthSystem,
    content: &mut ContentStore,
    data: &QuestStageMoveForwardData,
    now: u64,
) -> (r: Result<(), AuthError>)
    requires
        auth.wf(),
    ensures
        admin_check_error(*auth, data.jwt@, now) matches Some(e) ==> r == Err::<(), AuthError>(e)
            && *final(content) == *old(content),
        admin_check_error(*auth, data.jwt@, now) is None ==> ({
            &&& (r == Err::<(), AuthError>(AuthError::InternalError) <==> data.position
                >= max_stage(old(content).quest_stages(), data.quest_id))
            &&& (r matches Err(_) ==> *final(content) == *old(content))
            &&& (r is Ok ==> final(content).quest_stages().len() == old(content).quest_stages().len() && (forall|j: int|
                0 <= j < old(content).quest_stages().len() ==> final(content).quest_stages()[j]
                    == stage_swapped(
                    #[trigger] old(content).quest_stages()[j],
                    data.quest_id,
                    data.position,
                    (data.position + 1) as u32,
                )))
        }),
{
    if let Err(e) = auth.require_admin(data.jwt.as_str(), now) {
        return Err(e);
    }
    let top = content.max_stage_of_quest(data.quest_id);
    if data.position >= top {
        return Err(AuthError::InternalError);
    }
    content.change_quest_stage_id_forward(data.quest_id, data.position);
    Ok(())
}

} // verus!
