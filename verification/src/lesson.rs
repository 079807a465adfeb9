//! Lesson content model: a lesson is a titled sequence of content sections
//! over a fixed set of section kinds, of which only vocabulary matters to
//! the scheduler. From the vocabulary entries the card universe is derived
//! deterministically: one card per entry, its identifier built from the
//! lesson id and the entry's index within its section.

use crate::due::Card;
use crate::due::CardSpec;
use crate::due::lemma_views_push;
use crate::due::views_of;
use crate::text::spec_decimal;
use crate::text::decimal_string;
use vstd::prelude::*;
use vstd::string::StringExecFns;

verus! {

/// One lesson: identity, display strings, optional source attribution and
/// the ordered content sections.
#[derive(Clone, Debug)]
pub struct Lesson {
    pub id: String,
    pub title: String,
    pub description: String,
    pub source: Option<SourceMetadata>,
    pub sections: Vec<ContentSection>,
}

/// Where a lesson's material comes from.
#[derive(Clone, Debug)]
pub struct SourceMetadata {
    pub title: String,
    pub author: Option<String>,
    pub period: Option<String>,
    pub verse_count: Option<u32>,
    pub poetic_form: Option<String>,
}

/// The fixed kinds of content a lesson may hold.
#[derive(Clone, Debug)]
pub enum ContentSection {
    Prose(ProseSection),
    Poetry(PoetrySection),
    Vocabulary(VocabularySection),
    Exercises(ExercisesSection),
    Media(MediaSection),
    Dialogue(DialogueSection),
}

/// Running prose, paragraph by paragraph.
#[derive(Clone, Debug)]
pub struct ProseSection {
    pub title: Option<String>,
    pub paragraphs: Vec<String>,
}

/// Poetry, verse by verse.
#[derive(Clone, Debug)]
pub struct PoetrySection {
    pub title: Option<String>,
    pub verses: Vec<Verse>,
}

/// One verse: its lines and an optional translation.
#[derive(Clone, Debug)]
pub struct Verse {
    pub number: Option<u32>,
    pub lines: Vec<String>,
    pub translation: Option<String>,
}

/// The vocabulary of a lesson: the entries the card universe is derived
/// from.
#[derive(Clone, Debug)]
pub struct VocabularySection {
    pub title: Option<String>,
    pub entries: Vec<VocabularyEntry>,
}

/// One vocabulary entry: the word and its meaning, which become the front
/// and back of a card.
#[derive(Clone, Debug)]
pub struct VocabularyEntry {
    pub word: String,
    pub meaning: String,
}

/// A dialogue, as in drama or plays.
#[derive(Clone, Debug)]
pub struct DialogueSection {
    pub title: Option<String>,
    pub scene: Option<SceneInfo>,
    pub lines: Vec<DialogueLine>,
}

/// The setting of a dialogue.
#[derive(Clone, Debug)]
pub struct SceneInfo {
    pub location: Option<String>,
    pub time: Option<String>,
    pub characters: Option<Vec<String>>,
}

/// One spoken line or stage direction of a dialogue.
#[derive(Clone, Debug)]
pub struct DialogueLine {
    pub character: Option<String>,
    pub text: String,
    pub direction: Option<bool>,
}

/// Exercises, grouped by kind.
#[derive(Clone, Debug)]
pub struct ExercisesSection {
    pub title: Option<String>,
    pub exercise_groups: Vec<ExerciseGroup>,
}

/// One group of exercises of a single kind, with shared instructions.
#[derive(Clone, Debug)]
pub struct ExerciseGroup {
    pub group_type: ExerciseGroupType,
    pub instructions: String,
    pub exercises: Vec<Exercise>,
}

/// The fixed kinds of exercise groups.
#[derive(Clone, Debug)]
pub enum ExerciseGroupType {
    MultipleChoice,
    FillInBlank,
    ShortAnswer,
    LongAnswer,
}

/// One exercise: identity and content.
#[derive(Clone, Debug)]
pub struct Exercise {
    pub id: String,
    pub content: ExerciseContent,
}

/// The content of one exercise, by kind.
#[derive(Clone, Debug)]
pub enum ExerciseContent {
    MultipleChoice(MultipleChoiceExercise),
    FillInBlank(FillInBlankExercise),
    ShortAnswer(ShortAnswerExercise),
    LongAnswer(LongAnswerExercise),
}

/// A question with options, some marked correct.
#[derive(Clone, Debug)]
pub struct MultipleChoiceExercise {
    pub question: String,
    pub options: Vec<ChoiceOption>,
}

/// One option of a multiple-choice exercise.
#[derive(Clone, Debug)]
pub struct ChoiceOption {
    pub id: String,
    pub text: String,
    pub correct: bool,
}

/// A sentence with a gap and the answers accepted for it.
#[derive(Clone, Debug)]
pub struct FillInBlankExercise {
    pub text_before: String,
    pub text_after: Option<String>,
    pub accepted_answers: Vec<String>,
    pub hint: Option<String>,
}

/// A question answered in a phrase or sentence.
#[derive(Clone, Debug)]
pub struct ShortAnswerExercise {
    pub question: String,
    pub model_answer: Option<String>,
}

/// A question answered at length.
#[derive(Clone, Debug)]
pub struct LongAnswerExercise {
    pub question: String,
    pub model_answer: Option<String>,
    pub min_words: Option<u32>,
}

/// Embedded media with an optional caption.
#[derive(Clone, Debug)]
pub struct MediaSection {
    pub media_type: MediaType,
    pub url: String,
    pub caption: Option<String>,
}

/// The fixed kinds of embedded media.
#[derive(Clone, Debug)]
pub enum MediaType {
    Image,
    Audio,
    Video,
}

/// What a lesson list shows of each lesson.
#[derive(Clone, Debug)]
pub struct LessonSummary {
    pub id: String,
    pub title: String,
    pub description: String,
}

/// The identifier of the card derived from a lesson's vocabulary entry at
/// `index` within its section.
pub open spec fn spec_card_id(lesson_id: Seq<char>, index: int) -> Seq<char> {
    lesson_id + ":vocab:"@ + spec_decimal(index as nat)
}

/// The card derived from one vocabulary entry.
pub open spec fn spec_entry_card(lesson_id: Seq<char>, index: int, e: VocabularyEntry) -> CardSpec {
    CardSpec { id: spec_card_id(lesson_id, index), front: e.word@, back: e.meaning@ }
}

/// The cards one content section contributes: one per vocabulary entry, in
/// entry order; other section kinds contribute none.
pub open spec fn spec_section_cards(lesson_id: Seq<char>, s: ContentSection) -> Seq<CardSpec> {
    match s {
        ContentSection::Vocabulary(v) => Seq::new(
            v.entries@.len(),
            |i: int| spec_entry_card(lesson_id, i, v.entries@[i]),
        ),
        _ => Seq::empty(),
    }
}

/// The cards a run of sections contributes, in section order.
pub open spec fn spec_sections_cards(lesson_id: Seq<char>, sections: Seq<ContentSection>) -> Seq<
    CardSpec,
>
    decreases sections.len(),
{
    if sections.len() == 0 {
        Seq::empty()
    } else {
        spec_section_cards(lesson_id, sections[0]) + spec_sections_cards(
            lesson_id,
            sections.drop_first(),
        )
    }
}

/// The cards one lesson contributes.
pub open spec fn spec_lesson_cards(l: Lesson) -> Seq<CardSpec> {
    spec_sections_cards(l.id@, l.sections@)
}

/// The whole card universe a run of lessons derives, in lesson order.
pub open spec fn spec_vocab_cards(lessons: Seq<Lesson>) -> Seq<CardSpec>
    decreases lessons.len(),
{
    if lessons.len() == 0 {
        Seq::empty()
    } else {
        spec_lesson_cards(lessons[0]) + spec_vocab_cards(lessons.drop_first())
    }
}

/// Builds the identifier of the card at `index` of a lesson's vocabulary.
pub fn card_id(lesson_id: &str, index: u64) -> (r: String)
    ensures
        r@ == spec_card_id(lesson_id@, index as int),
{
    let mut out = lesson_id.to_owned();
    out.append(":vocab:");
    let digits = decimal_string(index);
    out.append(digits.as_str());
    proof {
        assert(out@ =~= spec_card_id(lesson_id@, index as int));
    }
    out
}

/// Derives the card universe from lesson content: for each lesson, for
/// each vocabulary section in order, one card per entry, its front the
/// word and its back the meaning.
pub fn vocabulary_cards(lessons: &Vec<Lesson>) -> (r: Vec<Card>)
    ensures
        views_of(r@) == spec_vocab_cards(lessons@),
{
    let ghost whole = spec_vocab_cards(lessons@);
    let mut out: Vec<Card> = Vec::new();
    let n = lessons.len();
    let mut i: usize = 0;
    proof {
        assert(lessons@.skip(0) =~= lessons@);
        assert(views_of(out@) + whole =~= whole);
    }
    while i < n
        invariant
            0 <= i <= n,
            n == lessons@.len(),
            whole == spec_vocab_cards(lessons@),
            whole == views_of(out@) + spec_vocab_cards(lessons@.skip(i as int)),
        decreases n - i,
    {
        proof {
            assert(lessons@.skip(i as int) =~= seq![lessons@[i as int]] + lessons@.skip(
                i as int + 1));
            assert(lessons@.skip(i as int).drop_first() =~= lessons@.skip(i as int + 1));
        }
        append_lesson_cards(&mut out, &lessons[i]);
        proof {
            assert(whole =~= views_of(out@) + spec_vocab_cards(lessons@.skip(i as int + 1)));
        }
        i = i + 1;
    }
    proof {
        assert(lessons@.skip(n as int) =~= Seq::<Lesson>::empty());
        assert(whole =~= views_of(out@));
    }
    out
}

/// Appends the cards one lesson contributes.
fn append_lesson_cards(out: &mut Vec<Card>, lesson: &Lesson)
    ensures
        views_of(final(out)@) == views_of(old(out)@) + spec_lesson_cards(*lesson),
{
    let n = lesson.sections.len();
    let mut i: usize = 0;
    proof {
        assert(lesson.sections@.skip(0) =~= lesson.sections@);
        assert(views_of(out@) + spec_sections_cards(lesson.id@, lesson.sections@) =~= views_of(
            old(out)@,
        ) + spec_lesson_cards(*lesson));
    }
    while i < n
        invariant
            0 <= i <= n,
            n == lesson.sections@.len(),
            views_of(old(out)@) + spec_lesson_cards(*lesson) == views_of(out@)
                + spec_sections_cards(lesson.id@, lesson.sections@.skip(i as int)),
        decreases n - i,
    {
        proof {
            assert(lesson.sections@.skip(i as int) =~= seq![lesson.sections@[i as int]]
                + lesson.sections@.skip(i as int + 1));
            assert(lesson.sections@.skip(i as int).drop_first() =~= lesson.sections@.skip(
                i as int + 1));
        }
        match &lesson.sections[i] {
            ContentSection::Vocabulary(v) => {
                append_entry_cards(out, lesson.id.as_str(), v);
            },
            _ => {},
        }
        proof {
            assert(views_of(old(out)@) + spec_lesson_cards(*lesson) =~= views_of(out@)
                + spec_sections_cards(lesson.id@, lesson.sections@.skip(i as int + 1)));
        }
        i = i + 1;
    }
    proof {
        assert(lesson.sections@.skip(n as int) =~= Seq::<ContentSection>::empty());
        assert(views_of(final(out)@) =~= views_of(old(out)@) + spec_lesson_cards(*lesson));
    }
}

/// Appends one card per entry of a vocabulary section, in entry order.
fn append_entry_cards(out: &mut Vec<Card>, lesson_id: &str, v: &VocabularySection)
    ensures
        views_of(final(out)@) == views_of(old(out)@) + spec_section_cards(
            lesson_id@,
            ContentSection::Vocabulary(*v),
        ),
{
    let ghost target = spec_section_cards(lesson_id@, ContentSection::Vocabulary(*v));
    let n = v.entries.len();
    let mut i: usize = 0;
    while i < n
        invariant
            0 <= i <= n,
            n == v.entries@.len(),
            target == spec_section_cards(lesson_id@, ContentSection::Vocabulary(*v)),
            views_of(out@) == views_of(old(out)@) + target.take(i as int),
        decreases n - i,
    {
        let entry = &v.entries[i];
        let id = card_id(lesson_id, i as u64);
        let card = Card { id, front: entry.word.clone(), back: entry.meaning.clone() };
        proof {
            assert(card@ == target[i as int]);
        }
        let ghost prev = out@;
        out.push(card);
        proof {
            lemma_views_push(prev, card);
            assert(target.take(i as int + 1) =~= target.take(i as int).push(target[i as int]));
            assert(views_of(out@) =~= views_of(old(out)@) + target.take(i as int + 1));
        }
        i = i + 1;
    }
    proof {
        assert(target.take(n as int) =~= target);
    }
}

/// The summary a lesson list shows: identity and display strings, lesson
/// by lesson in order.
pub fn lesson_summaries(lessons: &Vec<Lesson>) -> (r: Vec<LessonSummary>)
    ensures
        r@.len() == lessons@.len(),
        forall|i: int|
            0 <= i < lessons@.len() ==> #[trigger] r@[i].id == lessons@[i].id && r@[i].title
                == lessons@[i].title && r@[i].description == lessons@[i].description,
{
    let n = lessons.len();
    let mut out: Vec<LessonSummary> = Vec::new();
    let mut i: usize = 0;
    while i < n
        invariant
            0 <= i <= n,
            n == lessons@.len(),
            out@.len() == i,
            forall|j: int|
                0 <= j < i ==> #[trigger] out@[j].id == lessons@[j].id && out@[j].title
                    == lessons@[j].title && out@[j].description == lessons@[j].description,
        decreases n - i,
    {
        let l = &lessons[i];
        let summary = LessonSummary {
            id: l.id.clone(),
            title: l.title.clone(),
            description: l.description.clone(),
        };
        let ghost prev = out@;
        out.push(summary);
        proof {
            assert forall|j: int| 0 <= j < i + 1 implies #[trigger] out@[j].id == lessons@[j].id
                && out@[j].title == lessons@[j].title && out@[j].description
                == lessons@[j].description by {
                if j < i {
                    assert(out@[j] == prev[j]);
                }
            }
        }
        i = i + 1;
    }
    out
}

/// The file name a lesson is stored under: its id with the data suffix.
pub fn lesson_filename_for_id(id: &str) -> (r: String)
    ensures
        r@ == id@ + ".json"@,
{
    let mut out = id.to_owned();
    out.append(".json");
    out
}

} // verus!
