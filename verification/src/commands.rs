//! The Grateic Phone command logic that sits between Discord and the game:
//! button ids, submission checks, and the texts the bot sends.

use crate::canvas::{preset_dimensions, CanvasPreset};
use crate::state::{
    Advance, CanvasConfig, ChainEntry, Game, GameError, GameKey, GamePhase, RoundAssignment, RoundKind,
    SubmissionKind,
};
use crate::text::{self, decimal, push_decimal, push_str};
use vstd::prelude::*;

verus! {

broadcast use vstd::string::group_string_axioms;

/// The buttons under a lobby message and under DM assignments.
#[derive(Debug, Clone, Copy, PartialEq, Eq, Structural)]
pub enum ButtonAction {
    Join,
    Leave,
    Status,
    Start,
    Cancel,
}

pub open spec fn slug_text(action: ButtonAction) -> Seq<char> {
    match action {
        ButtonAction::Join => "join"@,
        ButtonAction::Leave => "leave"@,
        ButtonAction::Status => "status"@,
        ButtonAction::Start => "start"@,
        ButtonAction::Cancel => "cancel"@,
    }
}

pub open spec fn slug_action(s: Seq<char>) -> Option<ButtonAction> {
    if s == "join"@ {
        Some(ButtonAction::Join)
    } else if s == "leave"@ {
        Some(ButtonAction::Leave)
    } else if s == "status"@ {
        Some(ButtonAction::Status)
    } else if s == "start"@ {
        Some(ButtonAction::Start)
    } else if s == "cancel"@ {
        Some(ButtonAction::Cancel)
    } else {
        None
    }
}

/// Whether two character slices are equal.
fn chars_equal(a: &[char], b: &[char]) -> (r: bool)
    ensures
        r == (a@ == b@),
{
    if a.len() != b.len() {
        return false;
    }
    let r = text::matches_at(a, b, 0);
    assert(a@.subrange(0, b@.len() as int) == a@);
    r
}

impl ButtonAction {
    pub fn slug(self) -> (s: &'static str)
        ensures
            s@ == slug_text(self),
    {
        match self {
            ButtonAction::Join => "join",
            ButtonAction::Leave => "leave",
            ButtonAction::Status => "status",
            ButtonAction::Start => "start",
            ButtonAction::Cancel => "cancel",
        }
    }

    pub fn from_slug(slug: &str) -> (r: Option<ButtonAction>)
        ensures
            r == slug_action(slug@),
    {
        let v = text::chars_of(slug);
        Self::from_slug_chars(v.as_slice())
    }

    fn from_slug_chars(v: &[char]) -> (r: Option<ButtonAction>)
        ensures
            r == slug_action(v@),
    {
        if chars_equal(v, text::chars_of("join").as_slice()) {
            Some(ButtonAction::Join)
        } else if chars_equal(v, text::chars_of("leave").as_slice()) {
            Some(ButtonAction::Leave)
        } else if chars_equal(v, text::chars_of("status").as_slice()) {
            Some(ButtonAction::Status)
        } else if chars_equal(v, text::chars_of("start").as_slice()) {
            Some(ButtonAction::Start)
        } else if chars_equal(v, text::chars_of("cancel").as_slice()) {
            Some(ButtonAction::Cancel)
        } else {
            None
        }
    }
}

pub open spec fn button_prefix() -> Seq<char> {
    "grateic:"@
}

/// The custom id of a button: `grateic:<action>:<guild>:<channel>`.
pub open spec fn button_id_text(action: ButtonAction, key: GameKey) -> Seq<char> {
    button_prefix() + slug_text(action) + ":"@ + decimal(key.guild_id as nat) + ":"@ + decimal(
        key.channel_id as nat,
    )
}

pub fn button_custom_id(action: ButtonAction, key: GameKey) -> (s: String)
    ensures
        s@ == button_id_text(action, key),
{
    let mut s = String::new();
    push_str(&mut s, "grateic:");
    push_str(&mut s, action.slug());
    push_str(&mut s, ":");
    push_decimal(&mut s, key.guild_id);
    push_str(&mut s, ":");
    push_decimal(&mut s, key.channel_id);
    s
}

/// What a button id says, if it is one of ours.
pub open spec fn parse_button_text(id: Seq<char>) -> Option<(ButtonAction, GameKey)> {
    if !text::has_prefix(id, button_prefix()) {
        None
    } else {
        let parts = text::split_on(id.skip(button_prefix().len() as int), ':');
        if parts.len() != 3 {
            None
        } else {
            match (
                slug_action(parts[0]),
                text::parse_u64_seq(parts[1]),
                text::parse_u64_seq(parts[2]),
            ) {
                (Some(a), Some(g), Some(c)) => Some((a, GameKey { guild_id: g, channel_id: c })),
                _ => None,
            }
        }
    }
}

proof fn lemma_split_first(s: Seq<char>, i: int)
    requires
        0 <= i < s.len(),
        s[i] == ':',
        forall|j: int| 0 <= j < i ==> s[j] != ':',
    ensures
        text::split_on(s, ':') == seq![s.take(i)] + text::split_on(s.skip(i + 1), ':'),
{
    text::lemma_first_index_at(s, ':', i);
}

proof fn lemma_split_none(s: Seq<char>)
    requires
        forall|j: int| 0 <= j < s.len() ==> s[j] != ':',
    ensures
        text::split_on(s, ':') == seq![s],
{
    text::lemma_first_index_at(s, ':', s.len() as int);
}

proof fn lemma_split_len(s: Seq<char>)
    ensures
        text::split_on(s, ':').len() >= 1,
    decreases s.len(),
{
    text::lemma_first_index(s, ':');
    match text::first_index(s, ':') {
        Some(i) => {
            lemma_split_len(s.skip(i + 1));
        },
        None => {},
    }
}

pub fn parse_button_custom_id(custom_id: &str) -> (r: Option<(ButtonAction, GameKey)>)
    ensures
        r == parse_button_text(custom_id@),
{
    let v = text::chars_of(custom_id);
    let prefix = text::chars_of("grateic:");
    if !text::matches_at(v.as_slice(), prefix.as_slice(), 0) {
        return None;
    }
    let start = prefix.len();
    let vlen = v.len();
    let ghost payload = v@.skip(start as int);
    let i1 = match text::find_char(v.as_slice(), ':', start) {
        Some(i) => i,
        None => {
            proof {
                assert forall|j: int| 0 <= j < payload.len() implies payload[j] != ':' by {
                    assert(payload[j] == v@[start + j]);
                }
                lemma_split_none(payload);
            }
            return None;
        },
    };
    proof {
        assert forall|j: int| 0 <= j < i1 - start implies payload[j] != ':' by {
            assert(payload[j] == v@[start + j]);
        }
        assert(payload[i1 - start] == ':');
        lemma_split_first(payload, i1 - start);
        assert(payload.take(i1 - start) == v@.subrange(start as int, i1 as int));
        assert(payload.skip(i1 - start + 1) == v@.skip(i1 + 1));
    }
    assert(i1 < vlen);
    let ghost rest1 = v@.skip(i1 + 1);
    let i2 = match text::find_char(v.as_slice(), ':', i1 + 1) {
        Some(i) => i,
        None => {
            proof {
                assert forall|j: int| 0 <= j < rest1.len() implies rest1[j] != ':' by {
                    assert(rest1[j] == v@[i1 + 1 + j]);
                }
                lemma_split_none(rest1);
            }
            return None;
        },
    };
    proof {
        assert forall|j: int| 0 <= j < i2 - i1 - 1 implies rest1[j] != ':' by {
            assert(rest1[j] == v@[i1 + 1 + j]);
        }
        assert(rest1[i2 - i1 - 1] == ':');
        lemma_split_first(rest1, i2 - i1 - 1);
        assert(rest1.take(i2 - i1 - 1) == v@.subrange(i1 + 1, i2 as int));
        assert(rest1.skip(i2 - i1 - 1 + 1) == v@.skip(i2 + 1));
    }
    assert(i2 < vlen);
    let ghost rest2 = v@.skip(i2 + 1);
    match text::find_char(v.as_slice(), ':', i2 + 1) {
        Some(i3) => {
            proof {
                assert forall|j: int| 0 <= j < i3 - i2 - 1 implies rest2[j] != ':' by {
                    assert(rest2[j] == v@[i2 + 1 + j]);
                }
                assert(rest2[i3 - i2 - 1] == ':');
                lemma_split_first(rest2, i3 - i2 - 1);
                lemma_split_len(rest2.skip(i3 - i2 - 1 + 1));
            }
            return None;
        },
        None => {
            proof {
                assert forall|j: int| 0 <= j < rest2.len() implies rest2[j] != ':' by {
                    assert(rest2[j] == v@[i2 + 1 + j]);
                }
                lemma_split_none(rest2);
            }
        },
    }
    let slug = text::copy_range(v.as_slice(), start, i1);
    let guild = text::copy_range(v.as_slice(), i1 + 1, i2);
    let channel = text::copy_range(v.as_slice(), i2 + 1, v.len());
    assert(channel@ == rest2);
    let action = ButtonAction::from_slug_chars(slug.as_slice())?;
    let guild_id = text::parse_u64(guild.as_slice())?;
    let channel_id = text::parse_u64(channel.as_slice())?;
    Some((action, GameKey { guild_id, channel_id }))
}

proof fn lemma_digit_char(d: nat)
    requires
        d < 10,
    ensures
        text::digit_char(d) as nat - '0' as nat == d,
        text::is_digit(text::digit_char(d)),
{
    assert(d == 0 || d == 1 || d == 2 || d == 3 || d == 4 || d == 5 || d == 6 || d == 7 || d == 8
        || d == 9);
}

proof fn lemma_decimal_digits(n: nat)
    ensures
        decimal(n).len() >= 1,
        text::all_digits(decimal(n)),
        text::digits_value(decimal(n)) == n,
    decreases n,
{
    vstd::arithmetic::div_mod::lemma_fundamental_div_mod(n as int, 10);
    lemma_digit_char(n % 10);
    if n < 10 {
        vstd::arithmetic::div_mod::lemma_small_mod(n, 10);
        assert(decimal(n).drop_last() =~= Seq::<char>::empty());
        assert(decimal(n).last() == text::digit_char(n));
        assert(text::digits_value(Seq::<char>::empty()) == 0);
        assert(text::digits_value(decimal(n)) == text::digits_value(decimal(n).drop_last()) * 10 + (
        decimal(n).last() as nat - '0' as nat) as nat);
        assert(text::digits_value(decimal(n)) == n);
    } else {
        lemma_decimal_digits(n / 10);
        let d = decimal(n);
        assert(d.drop_last() == decimal(n / 10));
        assert(d.last() == text::digit_char(n % 10));
        assert((n / 10) * 10 == 10 * (n / 10)) by (nonlinear_arith);
        assert(text::digits_value(d) == text::digits_value(d.drop_last()) * 10 + (d.last() as nat
            - '0' as nat) as nat);
        assert(text::digits_value(d) == n);
        assert forall|i: int| 0 <= i < d.len() implies text::is_digit(#[trigger] d[i]) by {
            if i < d.len() - 1 {
                assert(d[i] == decimal(n / 10)[i]);
            }
        }
    }
}

proof fn lemma_decimal_parses(n: u64)
    ensures
        text::parse_u64_seq(decimal(n as nat)) == Some(n),
        forall|i: int| 0 <= i < decimal(n as nat).len() ==> #[trigger] decimal(n as nat)[i] != ':',
{
    lemma_decimal_digits(n as nat);
    let d = decimal(n as nat);
    assert(text::is_digit(d[0]));
    assert forall|i: int| 0 <= i < d.len() implies #[trigger] d[i] != ':' by {
        assert(text::is_digit(d[i]));
    }
}

/// Different numbers are written differently.
pub proof fn lemma_decimal_injective(a: u64, b: u64)
    ensures
        decimal(a as nat) == decimal(b as nat) ==> a == b,
{
    lemma_decimal_parses(a);
    lemma_decimal_parses(b);
}

proof fn lemma_slug_round_trip(a: ButtonAction)
    ensures
        slug_action(slug_text(a)) == Some(a),
        forall|i: int| 0 <= i < slug_text(a).len() ==> #[trigger] slug_text(a)[i] != ':',
{
    reveal_strlit("join");
    reveal_strlit("leave");
    reveal_strlit("status");
    reveal_strlit("start");
    reveal_strlit("cancel");
    assert("join"@.len() == 4 && "leave"@.len() == 5 && "status"@.len() == 6 && "start"@.len()
        == 5 && "cancel"@.len() == 6);
    assert("leave"@[0] != "start"@[0]);
    assert("status"@[0] != "cancel"@[0]);
}

/// Reading a button id gives back the action and game it was made for.
pub proof fn law_button_id_round_trip(action: ButtonAction, key: GameKey)
    ensures
        parse_button_text(button_id_text(action, key)) == Some((action, key)),
{
    reveal_strlit(":");
    let colon = ":"@;
    assert(colon =~= seq![':']);
    let slug = slug_text(action);
    let g = decimal(key.guild_id as nat);
    let c = decimal(key.channel_id as nat);
    lemma_slug_round_trip(action);
    lemma_decimal_parses(key.guild_id);
    lemma_decimal_parses(key.channel_id);
    let id = button_id_text(action, key);
    let payload = slug + colon + g + colon + c;
    assert(id =~= button_prefix() + payload);
    assert(id.take(button_prefix().len() as int) =~= button_prefix());
    assert(text::has_prefix(id, button_prefix()));
    assert(id.skip(button_prefix().len() as int) =~= payload);
    // first separator
    assert(payload[slug.len() as int] == ':');
    assert forall|j: int| 0 <= j < slug.len() implies payload[j] != ':' by {
        assert(payload[j] == slug[j]);
    }
    lemma_split_first(payload, slug.len() as int);
    assert(payload.take(slug.len() as int) =~= slug);
    let rest = payload.skip(slug.len() as int + 1);
    assert(rest =~= g + colon + c);
    assert(rest[g.len() as int] == ':');
    assert forall|j: int| 0 <= j < g.len() implies rest[j] != ':' by {
        assert(rest[j] == g[j]);
    }
    lemma_split_first(rest, g.len() as int);
    assert(rest.take(g.len() as int) =~= g);
    assert(rest.skip(g.len() as int + 1) =~= c);
    lemma_split_none(c);
    let parts = text::split_on(payload, ':');
    assert(parts =~= seq![slug, g, c]);
}

/// A button id that goes on past the channel id, after another `:`, is not
/// one of ours: it has more than the three parts that an id holds.
pub proof fn law_button_id_with_extra_part_is_refused(action: ButtonAction, key: GameKey, extra: Seq<char>)
    ensures
        parse_button_text(button_id_text(action, key) + ":"@ + extra) is None,
{
    reveal_strlit(":");
    let colon = ":"@;
    assert(colon =~= seq![':']);
    let slug = slug_text(action);
    let g = decimal(key.guild_id as nat);
    let c = decimal(key.channel_id as nat);
    lemma_slug_round_trip(action);
    lemma_decimal_parses(key.guild_id);
    lemma_decimal_parses(key.channel_id);
    let id = button_id_text(action, key) + colon + extra;
    let payload = slug + colon + g + colon + c + colon + extra;
    assert(id =~= button_prefix() + payload);
    assert(id.take(button_prefix().len() as int) =~= button_prefix());
    assert(text::has_prefix(id, button_prefix()));
    assert(id.skip(button_prefix().len() as int) =~= payload);
    assert(payload[slug.len() as int] == ':');
    assert forall|j: int| 0 <= j < slug.len() implies payload[j] != ':' by {
        assert(payload[j] == slug[j]);
    }
    lemma_split_first(payload, slug.len() as int);
    let rest = payload.skip(slug.len() as int + 1);
    assert(rest =~= g + colon + c + colon + extra);
    assert(rest[g.len() as int] == ':');
    assert forall|j: int| 0 <= j < g.len() implies rest[j] != ':' by {
        assert(rest[j] == g[j]);
    }
    lemma_split_first(rest, g.len() as int);
    let rest2 = rest.skip(g.len() as int + 1);
    assert(rest2 =~= c + colon + extra);
    assert(rest2[c.len() as int] == ':');
    assert forall|j: int| 0 <= j < c.len() implies rest2[j] != ':' by {
        assert(rest2[j] == c[j]);
    }
    lemma_split_first(rest2, c.len() as int);
    assert(rest2.skip(c.len() as int + 1) =~= extra);
    lemma_split_len(extra);
    assert(text::split_on(payload, ':').len() >= 4);
}

// ------------------------------------------------------------ text submissions

/// Why a DM could not be taken as a text submission.
#[derive(Debug, Clone, Copy, PartialEq, Eq, Structural)]
pub enum TextSubmissionError {
    Sticker,
    Empty,
    TooLong,
}

pub open spec fn text_submission_error_text(e: TextSubmissionError) -> Seq<char> {
    match e {
        TextSubmissionError::Sticker => "Discord stickers cannot be used as prompts."@,
        TextSubmissionError::Empty => "This round needs a text reply."@,
        TextSubmissionError::TooLong => "Text submissions must be 140 characters or fewer."@,
    }
}

impl TextSubmissionError {
    pub fn message(&self) -> (m: &'static str)
        ensures
            m@ == text_submission_error_text(*self),
    {
        match self {
            TextSubmissionError::Sticker => "Discord stickers cannot be used as prompts.",
            TextSubmissionError::Empty => "This round needs a text reply.",
            TextSubmissionError::TooLong => "Text submissions must be 140 characters or fewer.",
        }
    }
}

/// Stickers are refused; otherwise the trimmed text, which must be non-empty
/// and at most 140 characters.
pub fn validate_text_submission_content(content: &str, has_sticker: bool) -> (r: Result<
    String,
    TextSubmissionError,
>)
    ensures
        has_sticker ==> r == Err::<String, TextSubmissionError>(TextSubmissionError::Sticker),
        !has_sticker && text::trim_seq(content@).len() == 0 ==> r == Err::<
            String,
            TextSubmissionError,
        >(TextSubmissionError::Empty),
        !has_sticker && text::trim_seq(content@).len() > 140 ==> r == Err::<
            String,
            TextSubmissionError,
        >(TextSubmissionError::TooLong),
        !has_sticker && 0 < text::trim_seq(content@).len() <= 140 ==> (r matches Ok(t) && t@
            == text::trim_seq(content@)),
{
    if has_sticker {
        return Err(TextSubmissionError::Sticker);
    }
    let t = text::trim(content);
    let count = text::chars_of(t.as_str()).len();
    if count == 0 {
        return Err(TextSubmissionError::Empty);
    }
    if count > 140 {
        return Err(TextSubmissionError::TooLong);
    }
    Ok(t)
}

// ------------------------------------------------------------ attachments

/// The position of the last `c` in `s`.
pub open spec fn last_index(s: Seq<char>, c: char) -> Option<int>
    decreases s.len(),
{
    if s.len() == 0 {
        None
    } else if s.last() == c {
        Some(s.len() - 1)
    } else {
        last_index(s.drop_last(), c)
    }
}

/// Whether a file name ends in `.png`, `.jpg`, `.jpeg` or `.webp`, in any case.
pub open spec fn has_image_extension(name: Seq<char>) -> bool {
    match last_index(name, '.') {
        Some(i) => {
            let ext = text::ascii_lower(name.skip(i + 1));
            ext == "png"@ || ext == "jpg"@ || ext == "jpeg"@ || ext == "webp"@
        },
        None => false,
    }
}

/// An attachment counts as an image when Discord says its type is `image/…`
/// or its file name has an image extension.
pub open spec fn is_image(content_type: Option<Seq<char>>, filename: Seq<char>) -> bool {
    (content_type matches Some(t) && text::has_prefix(t, "image/"@)) || has_image_extension(filename)
}

pub fn is_image_attachment(content_type: Option<&str>, filename: &str) -> (b: bool)
    ensures
        b == is_image(
            match content_type {
                Some(t) => Some(t@),
                None => None,
            },
            filename@,
        ),
{
    let typed = match content_type {
        Some(t) => text::starts_with(t, "image/"),
        None => false,
    };
    if typed {
        return true;
    }
    let v = text::chars_of(filename);
    let mut i = v.len();
    assert(v@.take(i as int) =~= v@);
    while i > 0 && v[i - 1] != '.'
        invariant
            i <= v@.len(),
            v@ == filename@,
            last_index(v@, '.') == last_index(v@.take(i as int), '.'),
        decreases i,
    {
        assert(v@.take(i as int).drop_last() == v@.take(i - 1));
        i -= 1;
    }
    if i == 0 {
        assert(v@.take(0) =~= Seq::<char>::empty());
        return false;
    }
    assert(v@.take(i as int).last() == '.');
    let ext_chars = text::copy_range(v.as_slice(), i, v.len());
    let ext = text::string_from_chars(ext_chars.as_slice());
    let lower = text::ascii_lowercase(ext.as_str());
    let l = lower.as_slice();
    chars_equal(l, text::chars_of("png").as_slice()) || chars_equal(l, text::chars_of("jpg").as_slice())
        || chars_equal(l, text::chars_of("jpeg").as_slice()) || chars_equal(
        l,
        text::chars_of("webp").as_slice(),
    )
}

// ------------------------------------------------------------ canvas texts

/// `<width>x<height>`.
pub open spec fn size_text(width: u32, height: u32) -> Seq<char> {
    decimal(width as nat) + "x"@ + decimal(height as nat)
}

pub(crate) fn push_size(s: &mut String, width: u32, height: u32)
    ensures
        final(s)@ == old(s)@ + size_text(width, height),
{
    push_decimal(s, width as u64);
    push_str(s, "x");
    push_decimal(s, height as u64);
}

pub open spec fn canvas_size_error_text(expected: (u32, u32), actual: Option<(u32, u32)>) -> Seq<
    char,
> {
    match actual {
        None => "This drawing must be "@ + size_text(expected.0, expected.1)
            + " to match the game canvas. I could not read this file's dimensions from Discord; please upload a normal image file whose dimensions Discord can detect."@,
        Some(a) => "This drawing must be "@ + size_text(expected.0, expected.1)
            + " to match the game canvas. Your file is "@ + size_text(a.0, a.1)
            + ". Please upload a corrected image."@,
    }
}

/// With the size rule on, the upload must have exactly the preset's size,
/// and its size must be known.
pub fn validate_canvas_size(canvas: &CanvasConfig, attachment_dimensions: Option<(u32, u32)>) -> (r:
    Result<(), String>)
    ensures
        !canvas.require_canvas_size ==> r is Ok,
        canvas.require_canvas_size && attachment_dimensions == Some(
            preset_dimensions(canvas.preset),
        ) ==> r is Ok,
        canvas.require_canvas_size && attachment_dimensions != Some(
            preset_dimensions(canvas.preset),
        ) ==> (r matches Err(m) && m@ == canvas_size_error_text(
            preset_dimensions(canvas.preset),
            attachment_dimensions,
        )),
{
    if !canvas.require_canvas_size {
        return Ok(());
    }
    let (expected_width, expected_height) = canvas.preset.dimensions();
    let mut m = String::new();
    match attachment_dimensions {
        None => {
            push_str(&mut m, "This drawing must be ");
            push_size(&mut m, expected_width, expected_height);
            push_str(
                &mut m,
                " to match the game canvas. I could not read this file's dimensions from Discord; please upload a normal image file whose dimensions Discord can detect.",
            );
            Err(m)
        },
        Some((actual_width, actual_height)) => {
            if actual_width == expected_width && actual_height == expected_height {
                return Ok(());
            }
            push_str(&mut m, "This drawing must be ");
            push_size(&mut m, expected_width, expected_height);
            push_str(&mut m, " to match the game canvas. Your file is ");
            push_size(&mut m, actual_width, actual_height);
            push_str(&mut m, ". Please upload a corrected image.");
            Err(m)
        },
    }
}

pub open spec fn accepted_text(note: Option<Seq<char>>) -> Seq<char> {
    match note {
        Some(n) => "Submission accepted. "@ + n,
        None => "Submission accepted."@,
    }
}

pub fn accepted_submission_message(submission_note: Option<&str>) -> (s: String)
    ensures
        s@ == accepted_text(
            match submission_note {
                Some(n) => Some(n@),
                None => None,
            },
        ),
{
    let mut s = String::new();
    match submission_note {
        Some(note) => {
            push_str(&mut s, "Submission accepted. ");
            push_str(&mut s, note);
        },
        None => push_str(&mut s, "Submission accepted."),
    }
    s
}

pub open spec fn constraint_text(require: bool, width: u32, height: u32) -> Seq<char> {
    if require {
        "Drawing uploads must match the canvas size exactly ("@ + size_text(width, height) + ")."@
    } else {
        "Drawing uploads may use any image size."@
    }
}

pub fn canvas_size_constraint_text(require_canvas_size: bool, width: u32, height: u32) -> (s: String)
    ensures
        s@ == constraint_text(require_canvas_size, width, height),
{
    let mut s = String::new();
    if require_canvas_size {
        push_str(&mut s, "Drawing uploads must match the canvas size exactly (");
        push_size(&mut s, width, height);
        push_str(&mut s, ").");
    } else {
        push_str(&mut s, "Drawing uploads may use any image size.");
    }
    s
}

pub fn canvas_size_constraint_summary(canvas: &CanvasConfig) -> (s: String)
    ensures
        s@ == constraint_text(
            canvas.require_canvas_size,
            preset_dimensions(canvas.preset).0,
            preset_dimensions(canvas.preset).1,
        ),
{
    let (width, height) = canvas.preset.dimensions();
    canvas_size_constraint_text(canvas.require_canvas_size, width, height)
}

pub open spec fn submission_constraint_text(canvas: CanvasConfig) -> Seq<char> {
    let (w, h) = preset_dimensions(canvas.preset);
    if canvas.require_canvas_size {
        "Exact canvas size is enabled for this game ("@ + size_text(w, h) + ")."@
    } else {
        "Exact canvas size is disabled for this game; image size is not restricted."@
    }
}

pub fn canvas_size_constraint_submission_text(canvas: &CanvasConfig) -> (s: String)
    ensures
        s@ == submission_constraint_text(*canvas),
{
    let (width, height) = canvas.preset.dimensions();
    let mut s = String::new();
    if canvas.require_canvas_size {
        push_str(&mut s, "Exact canvas size is enabled for this game (");
        push_size(&mut s, width, height);
        push_str(&mut s, ").");
    } else {
        push_str(&mut s, "Exact canvas size is disabled for this game; image size is not restricted.");
    }
    s
}

pub open spec fn drawing_constraint_text(require: bool, width: u32, height: u32) -> Seq<char> {
    if require {
        "Upload an image exactly "@ + size_text(width, height) + "."@
    } else {
        "Image size is not restricted for this game."@
    }
}

pub fn drawing_round_constraint_text(require_canvas_size: bool, width: u32, height: u32) -> (s: String)
    ensures
        s@ == drawing_constraint_text(require_canvas_size, width, height),
{
    let mut s = String::new();
    if require_canvas_size {
        push_str(&mut s, "Upload an image exactly ");
        push_size(&mut s, width, height);
        push_str(&mut s, ".");
    } else {
        push_str(&mut s, "Image size is not restricted for this game.");
    }
    s
}

// ------------------------------------------------------------ mentions and entries

/// `<@id>`, which Discord shows as a mention.
pub open spec fn mention(id: u64) -> Seq<char> {
    "<@"@ + decimal(id as nat) + ">"@
}

pub(crate) fn push_mention(s: &mut String, id: u64)
    ensures
        final(s)@ == old(s)@ + mention(id),
{
    push_str(s, "<@");
    push_decimal(s, id);
    push_str(s, ">");
}

/// Mentions separated by `, `.
pub open spec fn mentions_joined(ids: Seq<u64>) -> Seq<char>
    decreases ids.len(),
{
    if ids.len() == 0 {
        Seq::empty()
    } else if ids.len() == 1 {
        mention(ids[0])
    } else {
        mentions_joined(ids.drop_last()) + ", "@ + mention(ids.last())
    }
}

pub(crate) fn push_mentions(s: &mut String, ids: &[u64])
    ensures
        final(s)@ == old(s)@ + mentions_joined(ids@),
{
    let ghost start = s@;
    let mut i: usize = 0;
    assert(ids@.take(0) =~= Seq::<u64>::empty());
    while i < ids.len()
        invariant
            i <= ids@.len(),
            s@ == start + mentions_joined(ids@.take(i as int)),
        decreases ids@.len() - i,
    {
        assert(ids@.take(i + 1).drop_last() == ids@.take(i as int));
        if i > 0 {
            push_str(s, ", ");
        }
        push_mention(s, ids[i]);
        assert(s@ == start + mentions_joined(ids@.take(i + 1)));
        i += 1;
    }
    assert(ids@.take(ids@.len() as int) == ids@);
}

pub open spec fn mention_list_text(ids: Seq<u64>) -> Seq<char> {
    if ids.len() == 0 {
        "nobody"@
    } else {
        mentions_joined(ids)
    }
}

pub fn mention_list(user_ids: &[u64]) -> (s: String)
    ensures
        s@ == mention_list_text(user_ids@),
{
    let mut s = String::new();
    if user_ids.len() == 0 {
        push_str(&mut s, "nobody");
        return s;
    }
    push_mentions(&mut s, user_ids);
    s
}

pub open spec fn describe_entry_text(entry: ChainEntry) -> Seq<char> {
    match entry.kind {
        SubmissionKind::Prompt(t) => mention(entry.author_id) + " wrote:\n"@ + t@,
        SubmissionKind::Name(t) => mention(entry.author_id) + " named it:\n"@ + t@,
        SubmissionKind::Drawing { attachment_url, .. } => mention(entry.author_id) + " drew:\n"@
            + attachment_url@,
    }
}

pub fn describe_entry(entry: &ChainEntry) -> (s: String)
    ensures
        s@ == describe_entry_text(*entry),
{
    let mut s = String::new();
    push_mention(&mut s, entry.author_id);
    match &entry.kind {
        SubmissionKind::Prompt(t) => {
            push_str(&mut s, " wrote:\n");
            push_str(&mut s, t.as_str());
        },
        SubmissionKind::Name(t) => {
            push_str(&mut s, " named it:\n");
            push_str(&mut s, t.as_str());
        },
        SubmissionKind::Drawing { attachment_url, .. } => {
            push_str(&mut s, " drew:\n");
            push_str(&mut s, attachment_url.as_str());
        },
    }
    s
}

pub open spec fn describe_entry_for_drawing_text(entry: ChainEntry) -> Seq<char> {
    match entry.kind {
        SubmissionKind::Prompt(t) => "Prompt:\n"@ + t@,
        SubmissionKind::Name(t) => "Name:\n"@ + t@,
        SubmissionKind::Drawing { attachment_url, .. } => "Drawing:\n"@ + attachment_url@,
    }
}

/// What a drawer sees of the previous entry: its content, not its author.
pub fn describe_entry_for_drawing(entry: &ChainEntry) -> (s: String)
    ensures
        s@ == describe_entry_for_drawing_text(*entry),
{
    let mut s = String::new();
    match &entry.kind {
        SubmissionKind::Prompt(t) => {
            push_str(&mut s, "Prompt:\n");
            push_str(&mut s, t.as_str());
        },
        SubmissionKind::Name(t) => {
            push_str(&mut s, "Name:\n");
            push_str(&mut s, t.as_str());
        },
        SubmissionKind::Drawing { attachment_url, .. } => {
            push_str(&mut s, "Drawing:\n");
            push_str(&mut s, attachment_url.as_str());
        },
    }
    s
}

pub open spec fn assignment_text(a: RoundAssignment, require: bool, width: u32, height: u32) -> Seq<
    char,
> {
    match (a.round_kind, a.previous_entry) {
        (RoundKind::Prompt, Some(prev)) =>
            "Prompt round: describe this drawing so the next player can draw from your words.\n\n"@
                + describe_entry_text(prev),
        (RoundKind::Prompt, None) => "Round 1: reply here with your initial prompt."@,
        (RoundKind::Drawing, Some(prev)) =>
            "Drawing round: draw from the latest chain entry, then upload your image here. "@
                + drawing_constraint_text(require, width, height) + "\n\n"@
                + describe_entry_for_drawing_text(prev),
        (RoundKind::Naming, Some(prev)) =>
            "Final naming round: this is what your original prompt became. Reply with a name/title for it.\n\n"@
                + describe_entry_text(prev),
        (_, None) => "Your next turn is ready. Reply here with your submission."@,
    }
}

/// The DM text of one round assignment.
pub fn assignment_message_content(
    assignment: &RoundAssignment,
    require_canvas_size: bool,
    width: u32,
    height: u32,
) -> (s: String)
    ensures
        s@ == assignment_text(*assignment, require_canvas_size, width, height),
{
    let mut s = String::new();
    match (&assignment.round_kind, &assignment.previous_entry) {
        (RoundKind::Prompt, Some(previous)) => {
            push_str(
                &mut s,
                "Prompt round: describe this drawing so the next player can draw from your words.\n\n",
            );
            let d = describe_entry(previous);
            push_str(&mut s, d.as_str());
        },
        (RoundKind::Prompt, None) => {
            push_str(&mut s, "Round 1: reply here with your initial prompt.");
        },
        (RoundKind::Drawing, Some(previous)) => {
            push_str(
                &mut s,
                "Drawing round: draw from the latest chain entry, then upload your image here. ",
            );
            let c = drawing_round_constraint_text(require_canvas_size, width, height);
            push_str(&mut s, c.as_str());
            push_str(&mut s, "\n\n");
            let d = describe_entry_for_drawing(previous);
            push_str(&mut s, d.as_str());
        },
        (RoundKind::Naming, Some(previous)) => {
            push_str(
                &mut s,
                "Final naming round: this is what your original prompt became. Reply with a name/title for it.\n\n",
            );
            let d = describe_entry(previous);
            push_str(&mut s, d.as_str());
        },
        (_, None) => {
            push_str(&mut s, "Your next turn is ready. Reply here with your submission.");
        },
    }
    s
}


} // verus!
