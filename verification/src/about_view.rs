//! The page about the project.

use vstd::prelude::*;

use crate::app::UpdateStatus;
use crate::log_pane::minus;
use crate::spans::{
    append_lines, bold, bold_tone, line_view, lines_view, no_spans, piece, plain, put, put_line, put_str, run,
    run_of, tone, Hue, Span, SpanView, Tone,
};
use crate::text::{
    byte_len, capitalize, capitalized, chars_of, head_bytes, head_is_whole, head_of, len_bytes,
};

verus! {

/// The project's page.
pub open spec fn github_url() -> Seq<char> {
    "https://github.com/skyline69/agcp"@
}

/// The rows of the project's name in block letters.
pub open spec fn logo() -> Seq<Seq<char>> {
    seq![
        " \u{2597}\u{2584}\u{2596}  \u{2597}\u{2584}\u{2584}\u{2596} \u{2597}\u{2584}\u{2584}\u{2596}\u{2597}\u{2584}\u{2584}\u{2596} "@,
        "\u{2590}\u{258c} \u{2590}\u{258c}\u{2590}\u{258c}   \u{2590}\u{258c}   \u{2590}\u{258c} \u{2590}\u{258c}"@,
        "\u{2590}\u{259b}\u{2580}\u{259c}\u{258c}\u{2590}\u{258c}\u{259d}\u{259c}\u{258c}\u{2590}\u{258c}   \u{2590}\u{259b}\u{2580}\u{2598} "@,
        "\u{2590}\u{258c} \u{2590}\u{258c}\u{259d}\u{259a}\u{2584}\u{259e}\u{2598}\u{259d}\u{259a}\u{2584}\u{2584}\u{2596}\u{2590}\u{258c}   "@,
    ]
}

/// A text in the middle of a line.
pub open spec fn centered_line(text: Seq<char>, width: int, tone: Tone) -> Seq<SpanView> {
    seq![
        piece(run(' ', (minus(width, byte_len(text) as int) / 2) as nat), plain(Hue::Plain)),
        piece(text, tone),
    ]
}

/// A text in the middle of a line.
fn center(text: &str, width: usize, look: Tone) -> (r: Vec<Span>)
    ensures
        line_view(r@) == centered_line(text@, width as int, look),
{
    let n = len_bytes(text);
    let pad: usize = if width >= n {
        (width - n) / 2
    } else {
        0
    };
    let mut r = no_spans();
    put(&mut r, run_of(' ', pad), tone(Hue::Plain));
    put_str(&mut r, text, look);
    assert(line_view(r@) =~= centered_line(text@, width as int, look));
    r
}

/// The look of a character of the logo: the colours run along it, further on in each row.
pub open spec fn logo_piece(c: char, row: int, i: int) -> SpanView {
    if c == ' ' {
        piece(" "@, plain(Hue::Plain))
    } else {
        piece(seq![c], plain(Hue::Rainbow((row * 2 + i) as usize)))
    }
}

/// A row of the logo in the middle of a line, character by character.
pub open spec fn logo_line(text: Seq<char>, row: int, width: int) -> Seq<SpanView> {
    seq![piece(run(' ', (minus(width, text.len() as int) / 2) as nat), plain(Hue::Plain))]
        + Seq::new(text.len(), |i: int| logo_piece(text[i], row, i))
}

/// A row of the logo in the middle of a line.
fn logo_spans(text: &str, row: usize, width: usize) -> (r: Vec<Span>)
    requires
        row < 4,
        text@.len() <= 100,
    ensures
        line_view(r@) == logo_line(text@, row as int, width as int),
{
    let v = chars_of(text);
    let n: usize = v.len();
    let pad: usize = if width >= n {
        (width - n) / 2
    } else {
        0
    };
    let mut r = no_spans();
    put(&mut r, run_of(' ', pad), tone(Hue::Plain));
    let ghost head = line_view(r@);
    let mut i: usize = 0;
    assert(line_view(r@) =~= head + Seq::new(0, |k: int| logo_piece(text@[k], row as int, k)));
    while i < n
        invariant
            i <= n == v@.len() <= 100,
            row < 4,
            v@ == text@,
            line_view(r@) == head + Seq::new(
                i as nat,
                |k: int| logo_piece(text@[k], row as int, k),
            ),
        decreases n - i,
    {
        let c = v[i];
        if c == ' ' {
            put_str(&mut r, " ", tone(Hue::Plain));
        } else {
            let mut t = String::new();
            t.push(c);
            assert(t@ =~= seq![c]);
            put(&mut r, t, tone(Hue::Rainbow(row * 2 + i)));
        }
        i = i + 1;
        assert(line_view(r@) =~= head + Seq::new(
            i as nat,
            |k: int| logo_piece(text@[k], row as int, k),
        ));
    }
    assert(line_view(r@) =~= logo_line(text@, row as int, width as int));
    r
}

/// The look of the link to the project.
pub open spec fn link_tone(hovered: bool) -> Tone {
    Tone { hue: Hue::Secondary, bold: hovered, underlined: hovered, marked: false }
}

/// What is said about a newer version, and how it looks; `None` where nothing is known. A
/// failure that does not fit is cut.
pub open spec fn update_note(status: UpdateStatus, width: int) -> Option<(Seq<char>, Tone)> {
    match status {
        UpdateStatus::NotChecked => None,
        UpdateStatus::Checking => Some(("Checking for updates..."@, plain(Hue::Dim))),
        UpdateStatus::UpToDate => Some(("Up to date"@, bold(Hue::Green))),
        UpdateStatus::UpdateAvailable { current, latest } => Some(
            ("Update available: v"@ + current@ + " -> v"@ + latest@, bold(Hue::Yellow)),
        ),
        UpdateStatus::Error(m) => {
            let text = "Update check failed: "@ + m@;
            Some(
                (
                    if byte_len(text) > width - 4 {
                        head_bytes(text, (width - 7) as nat) + "..."@
                    } else {
                        text
                    },
                    plain(Hue::Error),
                ),
            )
        },
    }
}

/// Whether what is said about a newer version can be said in a line of a width: a failure
/// that does not fit has to be cut between two characters.
pub open spec fn note_fits(status: UpdateStatus, width: int) -> bool {
    match status {
        UpdateStatus::Error(m) => {
            let text = "Update check failed: "@ + m@;
            width >= 7 && (byte_len(text) > width - 4 ==> head_is_whole(text, (width - 7) as nat))
        },
        _ => true,
    }
}

/// What is said about a newer version, and how it looks.
pub fn update_text(status: &UpdateStatus, width: usize) -> (r: Option<(String, Tone)>)
    requires
        note_fits(*status, width as int),
    ensures
        match r {
            Some((t, look)) => update_note(*status, width as int) == Some((t@, look)),
            None => update_note(*status, width as int) is None,
        },
{
    match status {
        UpdateStatus::NotChecked => None,
        UpdateStatus::Checking => Some(("Checking for updates...".to_owned(), tone(Hue::Dim))),
        UpdateStatus::UpToDate => Some(("Up to date".to_owned(), bold_tone(Hue::Green))),
        UpdateStatus::UpdateAvailable { current, latest } => {
            let mut t = "Update available: v".to_owned();
            t.push_str(current);
            t.push_str(" -> v");
            t.push_str(latest);
            Some((t, bold_tone(Hue::Yellow)))
        },
        UpdateStatus::Error(m) => {
            let mut t = "Update check failed: ".to_owned();
            t.push_str(m);
            if len_bytes(&t) > width - 4 {
                let mut short = head_of(&t, width - 7);
                short.push_str("...");
                Some((short, tone(Hue::Error)))
            } else {
                Some((t, tone(Hue::Error)))
            }
        },
    }
}

/// The lines of the page between the logo and what is said about a newer version. Anthropic's
/// models go by the name `anthropic`.
pub open spec fn info_lines(
    width: int,
    version: Seq<char>,
    anthropic: Seq<char>,
    hovered: bool,
) -> Seq<Seq<SpanView>> {
    let models = capitalized(anthropic);
    let none = Seq::<SpanView>::empty();
    seq![
        none,
        none,
        centered_line(
            "Extremely Lightweight Antigravity-"@ + models + "-Proxy"@,
            width,
            plain(Hue::Primary),
        ),
        none,
        centered_line("Version "@ + version, width, plain(Hue::Dim)),
        none,
        centered_line(
            "A proxy that translates Anthropic's "@ + models + " API"@,
            width,
            plain(Hue::Dim),
        ),
        centered_line(
            "to Google's Cloud Code API, enabling "@ + models + " and"@,
            width,
            plain(Hue::Dim),
        ),
        centered_line(
            "Gemini models through an Anthropic-compatible interface."@,
            width,
            plain(Hue::Dim),
        ),
        none,
        centered_line(github_url(), width, link_tone(hovered)),
        none,
    ]
}

/// A word with what stands before and after it.
fn in_words(before: &str, word: &str, after: &str) -> (r: String)
    ensures
        r@ == before@ + word@ + after@,
{
    let mut r = before.to_owned();
    r.push_str(word);
    r.push_str(after);
    r
}

/// The lines of the page between the logo and what is said about a newer version.
fn info_text(width: usize, version: &str, anthropic: &str, hovered: bool) -> (r: Vec<Vec<Span>>)
    ensures
        lines_view(r@) == info_lines(width as int, version@, anthropic@, hovered),
{
    let models = capitalize(anthropic);
    let mut r: Vec<Vec<Span>> = Vec::new();
    put_line(&mut r, no_spans());
    put_line(&mut r, no_spans());
    let title = in_words("Extremely Lightweight Antigravity-", &models, "-Proxy");
    put_line(&mut r, center(&title, width, tone(Hue::Primary)));
    put_line(&mut r, no_spans());
    let mut v = "Version ".to_owned();
    v.push_str(version);
    put_line(&mut r, center(&v, width, tone(Hue::Dim)));
    put_line(&mut r, no_spans());
    let what = in_words("A proxy that translates Anthropic's ", &models, " API");
    put_line(&mut r, center(&what, width, tone(Hue::Dim)));
    let what = in_words("to Google's Cloud Code API, enabling ", &models, " and");
    put_line(&mut r, center(&what, width, tone(Hue::Dim)));
    put_line(
        &mut r,
        center("Gemini models through an Anthropic-compatible interface.", width, tone(Hue::Dim)),
    );
    put_line(&mut r, no_spans());
    let look = Tone { hue: Hue::Secondary, bold: hovered, underlined: hovered, marked: false };
    put_line(&mut r, center("https://github.com/skyline69/agcp", width, look));
    put_line(&mut r, no_spans());
    assert(lines_view(r@) =~= info_lines(width as int, version@, anthropic@, hovered));
    r
}

/// The page about the project: the logo, what the project is, its page and what is known of
/// a newer version, in the middle of the height.
pub open spec fn about_lines(
    width: int,
    height: int,
    version: Seq<char>,
    anthropic: Seq<char>,
    hovered: bool,
    status: UpdateStatus,
) -> Seq<Seq<SpanView>> {
    Seq::new((minus(height, 17) / 2) as nat, |i: int| Seq::<SpanView>::empty()) + Seq::new(
        4,
        |i: int| logo_line(logo()[i], i, width),
    ) + info_lines(width, version, anthropic, hovered) + (match update_note(status, width) {
        Some((t, look)) => seq![centered_line(t, width, look)],
        None => Seq::empty(),
    })
}

/// The rows of the logo in the middle of their lines.
fn logo_text(width: usize) -> (r: Vec<Vec<Span>>)
    ensures
        lines_view(r@) == Seq::new(4, |i: int| logo_line(logo()[i], i, width as int)),
{
    proof {
        lemma_logo_lengths();
    }
    let mut r: Vec<Vec<Span>> = Vec::new();
    put_line(
        &mut r,
        logo_spans(
            " \u{2597}\u{2584}\u{2596}  \u{2597}\u{2584}\u{2584}\u{2596} \u{2597}\u{2584}\u{2584}\u{2596}\u{2597}\u{2584}\u{2584}\u{2596} ",
            0,
            width,
        ),
    );
    put_line(
        &mut r,
        logo_spans(
            "\u{2590}\u{258c} \u{2590}\u{258c}\u{2590}\u{258c}   \u{2590}\u{258c}   \u{2590}\u{258c} \u{2590}\u{258c}",
            1,
            width,
        ),
    );
    put_line(
        &mut r,
        logo_spans(
            "\u{2590}\u{259b}\u{2580}\u{259c}\u{258c}\u{2590}\u{258c}\u{259d}\u{259c}\u{258c}\u{2590}\u{258c}   \u{2590}\u{259b}\u{2580}\u{2598} ",
            2,
            width,
        ),
    );
    put_line(
        &mut r,
        logo_spans(
            "\u{2590}\u{258c} \u{2590}\u{258c}\u{259d}\u{259a}\u{2584}\u{259e}\u{2598}\u{259d}\u{259a}\u{2584}\u{2584}\u{2596}\u{2590}\u{258c}   ",
            3,
            width,
        ),
    );
    assert(lines_view(r@) =~= Seq::new(4, |i: int| logo_line(logo()[i], i, width as int)));
    r
}

proof fn lemma_logo_lengths()
    ensures
        logo()[0].len() == 20,
        logo()[1].len() == 20,
        logo()[2].len() == 20,
        logo()[3].len() == 20,
{
    reveal_strlit(
        " \u{2597}\u{2584}\u{2596}  \u{2597}\u{2584}\u{2584}\u{2596} \u{2597}\u{2584}\u{2584}\u{2596}\u{2597}\u{2584}\u{2584}\u{2596} ",
    );
    reveal_strlit(
        "\u{2590}\u{258c} \u{2590}\u{258c}\u{2590}\u{258c}   \u{2590}\u{258c}   \u{2590}\u{258c} \u{2590}\u{258c}",
    );
    reveal_strlit(
        "\u{2590}\u{259b}\u{2580}\u{259c}\u{258c}\u{2590}\u{258c}\u{259d}\u{259c}\u{258c}\u{2590}\u{258c}   \u{2590}\u{259b}\u{2580}\u{2598} ",
    );
    reveal_strlit(
        "\u{2590}\u{258c} \u{2590}\u{258c}\u{259d}\u{259a}\u{2584}\u{259e}\u{2598}\u{259d}\u{259a}\u{2584}\u{2584}\u{2596}\u{2590}\u{258c}   ",
    );
}

/// The page about the project.
pub fn about_page(
    width: u16,
    height: u16,
    version: &str,
    anthropic: &str,
    hovered_link: bool,
    status: &UpdateStatus,
) -> (r: Vec<Vec<Span>>)
    requires
        note_fits(*status, width as int),
    ensures
        lines_view(r@) == about_lines(
            width as int,
            height as int,
            version@,
            anthropic@,
            hovered_link,
            *status,
        ),
{
    let w: usize = width as usize;
    let blank: usize = if height >= 17 {
        ((height - 17) / 2) as usize
    } else {
        0
    };
    let mut r: Vec<Vec<Span>> = Vec::new();
    let mut i: usize = 0;
    assert(lines_view(r@) =~= Seq::new(0, |k: int| Seq::<SpanView>::empty()));
    while i < blank
        invariant
            i <= blank,
            lines_view(r@) == Seq::new(i as nat, |k: int| Seq::<SpanView>::empty()),
        decreases blank - i,
    {
        put_line(&mut r, no_spans());
        i = i + 1;
        assert(lines_view(r@) =~= Seq::new(i as nat, |k: int| Seq::<SpanView>::empty()));
    }
    append_lines(&mut r, logo_text(w));
    append_lines(&mut r, info_text(w, version, anthropic, hovered_link));
    match update_text(status, w) {
        Some((t, look)) => {
            put_line(&mut r, center(&t, w, look));
        },
        None => {},
    }
    assert(lines_view(r@) =~= about_lines(
        width as int,
        height as int,
        version@,
        anthropic@,
        hovered_link,
        *status,
    ));
    r
}

/// The link is where it is clicked: the row in which the page shows it is the one in which
/// the mouse is taken to be on it.
pub proof fn the_link_is_where_it_is_clicked(
    width: int,
    height: u16,
    version: Seq<char>,
    anthropic: Seq<char>,
    hovered: bool,
    status: UpdateStatus,
)
    ensures
        ({
            let lines = about_lines(width, height as int, version, anthropic, hovered, status);
            let row = crate::mouse::link_row(height);
            &&& 0 <= row < lines.len()
            &&& lines[row] == centered_line(github_url(), width, link_tone(hovered))
        }),
{
}

/// The version, the link and what is known of updates are shown.
pub proof fn the_version_is_shown(
    width: int,
    height: int,
    version: Seq<char>,
    anthropic: Seq<char>,
    hovered: bool,
    status: UpdateStatus,
)
    requires
        height >= 17,
    ensures
        ({
            let top = (height - 17) / 2;
            let all = about_lines(width, height, version, anthropic, hovered, status);
            &&& all[top + 8][1].text == "Version "@ + version
            &&& all[top + 14][1].text == github_url()
            &&& all[top + 14][1].tone.underlined == hovered
            &&& status is NotChecked <==> all.len() == top + 16
            &&& status matches UpdateStatus::UpdateAvailable { current, latest } ==> all.last()[1].text
                == "Update available: v"@ + current@ + " -> v"@ + latest@
            &&& status matches UpdateStatus::Error(m) ==> (byte_len("Update check failed: "@ + m@)
                <= width - 4 ==> all.last()[1].text == "Update check failed: "@ + m@)
            &&& status is UpToDate ==> all.last()[1].text == "Up to date"@
        }),
{
}

} // verus!
