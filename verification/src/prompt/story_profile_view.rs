//! The story profile as prompts show it.
use crate::domain::BoundedText;
use crate::render::{bounded_views, copy_texts, field_line, field_line_of, quoted_list, quoted_list_text};
use crate::text::{contains_text, join, join_strings, lemma_join_contains, lemma_join_starts_with_first, starts_with, views_of};
use crate::turn::StoryProfile;
use vstd::prelude::*;

verus! {

#[derive(Debug, Clone)]
pub struct StoryProfilePromptView {
    pub title: BoundedText,
    pub language: BoundedText,
    pub genre: Vec<BoundedText>,
    pub themes: Vec<BoundedText>,
    pub tone: Vec<BoundedText>,
    pub point_of_view: BoundedText,
    pub tense: BoundedText,
}

impl StoryProfilePromptView {
    /// The view of a story's title and profile.
    pub fn new(title: &BoundedText, profile: &StoryProfile) -> (r: StoryProfilePromptView)
        ensures
            r.title@ == title@,
            r.language@ == profile.language@,
            bounded_views(r.genre@) == bounded_views(profile.genre@),
            bounded_views(r.themes@) == bounded_views(profile.themes@),
            bounded_views(r.tone@) == bounded_views(profile.style.tone@),
            r.point_of_view@ == profile.style.point_of_view@,
            r.tense@ == profile.style.tense@,
    {
        StoryProfilePromptView {
            title: title.duplicate(),
            language: profile.language.duplicate(),
            genre: copy_texts(&profile.genre),
            themes: copy_texts(&profile.themes),
            tone: copy_texts(&profile.style.tone),
            point_of_view: profile.style.point_of_view.duplicate(),
            tense: profile.style.tense.duplicate(),
        }
    }
}

pub open spec fn list_line(name: Seq<char>, values: Seq<Seq<char>>) -> Seq<Seq<char>> {
    if values.len() > 0 {
        seq![name + ": "@ + quoted_list_text(values)]
    } else {
        Seq::empty()
    }
}

/// Title and language, then genre, themes and tone when not empty, then
/// point of view and tense; one `name: value` line each.
pub open spec fn profile_lines(
    title: Seq<char>,
    language: Seq<char>,
    genre: Seq<Seq<char>>,
    themes: Seq<Seq<char>>,
    tone: Seq<Seq<char>>,
    point_of_view: Seq<char>,
    tense: Seq<char>,
) -> Seq<Seq<char>> {
    seq![field_line(""@, "title"@, title), field_line(""@, "language"@, language)] + list_line("genre"@, genre)
        + list_line("themes"@, themes) + list_line("tone"@, tone) + seq![
        field_line(""@, "point_of_view"@, point_of_view),
        field_line(""@, "tense"@, tense),
    ]
}

pub open spec fn story_profile_lines(v: StoryProfilePromptView) -> Seq<Seq<char>> {
    profile_lines(
        v.title@,
        v.language@,
        bounded_views(v.genre@),
        bounded_views(v.themes@),
        bounded_views(v.tone@),
        v.point_of_view@,
        v.tense@,
    )
}

fn push_list_line(lines: &mut Vec<String>, name: &str, values: &Vec<BoundedText>)
    ensures
        views_of(final(lines)@) == views_of(old(lines)@) + list_line(name@, bounded_views(values@)),
{
    if values.len() > 0 {
        let mut l = String::new();
        l.append(name);
        l.append(": ");
        let q = quoted_list(values);
        l.append(q.as_str());
        lines.push(l);
    }
    assert(views_of(lines@) =~= views_of(old(lines)@) + list_line(name@, bounded_views(values@)));
}

pub fn render_story_profile_view(view: &StoryProfilePromptView) -> (r: String)
    ensures
        r@ == join(story_profile_lines(*view), "\n"@),
{
    let mut lines: Vec<String> = Vec::new();
    lines.push(field_line_of("", "title", view.title.as_str()));
    lines.push(field_line_of("", "language", view.language.as_str()));
    let ghost head = views_of(lines@);
    assert(head =~= seq![field_line(""@, "title"@, view.title@), field_line(""@, "language"@, view.language@)]);
    push_list_line(&mut lines, "genre", &view.genre);
    push_list_line(&mut lines, "themes", &view.themes);
    push_list_line(&mut lines, "tone", &view.tone);
    let ghost body = views_of(lines@);
    lines.push(field_line_of("", "point_of_view", view.point_of_view.as_str()));
    lines.push(field_line_of("", "tense", view.tense.as_str()));
    assert(views_of(lines@) =~= body + seq![
        field_line(""@, "point_of_view"@, view.point_of_view@),
        field_line(""@, "tense"@, view.tense@),
    ]);
    assert(views_of(lines@) =~= story_profile_lines(*view));
    join_strings(&lines, "\n")
}


/// Law: a rendered story profile opens with its title and shows its
/// language, point of view and tense, and its genre, themes and tone when
/// they are not empty, each under its own name.
pub proof fn law_profile_shows_each_field(
    title: Seq<char>,
    language: Seq<char>,
    genre: Seq<Seq<char>>,
    themes: Seq<Seq<char>>,
    tone: Seq<Seq<char>>,
    point_of_view: Seq<char>,
    tense: Seq<char>,
)
    ensures
        ({
            let t = join(profile_lines(title, language, genre, themes, tone, point_of_view, tense), "\n"@);
            &&& starts_with(t, field_line(""@, "title"@, title))
            &&& contains_text(t, field_line(""@, "language"@, language))
            &&& contains_text(t, field_line(""@, "point_of_view"@, point_of_view))
            &&& contains_text(t, field_line(""@, "tense"@, tense))
            &&& genre.len() > 0 ==> contains_text(t, "genre: "@ + quoted_list_text(genre))
            &&& themes.len() > 0 ==> contains_text(t, "themes: "@ + quoted_list_text(themes))
            &&& tone.len() > 0 ==> contains_text(t, "tone: "@ + quoted_list_text(tone))
        }),
{
    let ls = profile_lines(title, language, genre, themes, tone, point_of_view, tense);
    let g = list_line("genre"@, genre);
    let th = list_line("themes"@, themes);
    let to = list_line("tone"@, tone);
    assert(ls[0] == field_line(""@, "title"@, title));
    assert(ls[1] == field_line(""@, "language"@, language));
    lemma_join_starts_with_first(ls, "\n"@);
    lemma_join_contains(ls, "\n"@, 1);
    let k: int = (2 + g.len() + th.len() + to.len()) as int;
    assert(ls[k] == field_line(""@, "point_of_view"@, point_of_view));
    assert(ls[k + 1] == field_line(""@, "tense"@, tense));
    lemma_join_contains(ls, "\n"@, k);
    lemma_join_contains(ls, "\n"@, k + 1);
    if genre.len() > 0 {
        assert(ls[2] == "genre"@ + ": "@ + quoted_list_text(genre));
        assert("genre"@ + ": "@ =~= "genre: "@) by {
            reveal_strlit("genre");
            reveal_strlit(": ");
            reveal_strlit("genre: ");
        }
        lemma_join_contains(ls, "\n"@, 2);
    }
    if themes.len() > 0 {
        let j: int = (2 + g.len()) as int;
        assert(ls[j] == "themes"@ + ": "@ + quoted_list_text(themes));
        assert("themes"@ + ": "@ =~= "themes: "@) by {
            reveal_strlit("themes");
            reveal_strlit(": ");
            reveal_strlit("themes: ");
        }
        lemma_join_contains(ls, "\n"@, j);
    }
    if tone.len() > 0 {
        let j: int = (2 + g.len() + th.len()) as int;
        assert(ls[j] == "tone"@ + ": "@ + quoted_list_text(tone));
        assert("tone"@ + ": "@ =~= "tone: "@) by {
            reveal_strlit("tone");
            reveal_strlit(": ");
            reveal_strlit("tone: ");
        }
        lemma_join_contains(ls, "\n"@, j);
    }
}

} // verus!
