//! Branded notification emails: a plain-text body and an HTML rendering of
//! the same content, in English or French.
use vstd::prelude::*;

use crate::text::{chars_of, join_strings, push_char, push_str, take_strings, trim_start_seq,
    trim_start_chars, eq_ignore_ascii_case, ascii_lower, ascii_lower_char, split_seq,
    split_chars, seqs_of, Sep, join_seq};

verus! {

/// A rendered email: subject, plain-text body and HTML body.
#[derive(Debug, Clone, PartialEq)]
pub struct EmailTemplate {
    pub subject: String,
    pub text: String,
    pub html: String,
}

/// A named detail shown in an email.
#[derive(Debug, Clone, PartialEq)]
pub struct EmailField {
    pub name: String,
    pub value: String,
}

/// A titled list of items in a digest email.
#[derive(Debug, Clone, PartialEq)]
pub struct EmailSection {
    pub title: String,
    pub items: Vec<String>,
}

/// The language of an email.
#[derive(Debug, Clone, Copy, PartialEq, Eq)]
pub enum EmailLocale {
    En,
    Fr,
}

/// The logo shown at the top of every email.
pub const LOGO_URL: &'static str = "https://usestakly.com/usestackly-logo-white-lime.png";

/// Opens the table row of one field, before its name.
pub const FIELD_ROW_OPEN: &'static str = r#"<tr>
  <td style="padding:12px 0;border-top:1px solid #1d1f25;">
    <div style="font:600 11px/1.4 ui-monospace,SFMono-Regular,Cascadia Code,Menlo,monospace;letter-spacing:0.16em;text-transform:uppercase;color:#6b6e77;">"#;
/// Between the name and the value of a field row.
pub const FIELD_ROW_MID: &'static str = r#"</div>
    <div style="margin-top:6px;font:400 15px/1.55 -apple-system,BlinkMacSystemFont,'Segoe UI',Roboto,Arial,sans-serif;color:#f5f6f7;white-space:pre-line;">"#;
/// Closes a field row.
pub const FIELD_ROW_CLOSE: &'static str = r#"</div>
  </td>
</tr>"#;
/// The repository button, before its link.
pub const ACTION_OPEN: &'static str = r#"<div style="margin-top:22px;">
  <a href=""#;
/// The repository button, after its link.
pub const ACTION_CLOSE: &'static str = r#"" style="display:inline-block;border:1px solid #b6ff3c;border-radius:6px;padding:11px 15px;font:600 14px/1 -apple-system,BlinkMacSystemFont,'Segoe UI',Roboto,Arial,sans-serif;color:#0a1304;background:#b6ff3c;text-decoration:none;">Open repository</a>
</div>"#;
/// The document head, before the language code.
pub const HTML_PART_0: &'static str = r#"<!doctype html>
<html lang=""#;
/// Before the hidden preview line.
pub const HTML_PART_1: &'static str = r#"">
  <body style="margin:0;padding:0;background:#08090b;color:#f5f6f7;">
    <div style="display:none;max-height:0;overflow:hidden;color:#08090b;" translate="no" class="notranslate">"#;
/// Before the logo address.
pub const HTML_PART_2: &'static str = r#"</div>
    <table role="presentation" width="100%" cellspacing="0" cellpadding="0" translate="no" class="notranslate" style="background:#08090b;margin:0;padding:32px 16px;">
      <tr>
        <td align="center">
          <table role="presentation" width="100%" cellspacing="0" cellpadding="0" style="max-width:620px;border-collapse:collapse;">
            <tr>
              <td style="padding:0 0 16px 0;">
                <table role="presentation" cellspacing="0" cellpadding="0">
                  <tr>
                    <td style="vertical-align:middle;">
                      <img src=""#;
/// Before the eyebrow line.
pub const HTML_PART_3: &'static str = r#"" width="42" height="40" alt="UseStakly" translate="no" class="notranslate" style="display:block;width:42px;height:40px;border:0;outline:none;text-decoration:none;" />
                    </td>
                    <td translate="no" class="notranslate" style="padding-left:12px;font:700 20px/1.2 -apple-system,BlinkMacSystemFont,'Segoe UI',Roboto,Arial,sans-serif;color:#f5f6f7;">UseStakly</td>
                  </tr>
                </table>
              </td>
            </tr>
            <tr>
              <td style="border:1px solid #1d1f25;border-radius:8px;background:#111216;padding:28px;">
                <div style="font:600 11px/1.4 ui-monospace,SFMono-Regular,Cascadia Code,Menlo,monospace;letter-spacing:0.18em;text-transform:uppercase;color:#b6ff3c;">"#;
/// Before the title.
pub const HTML_PART_4: &'static str = r#"</div>
                <h1 style="margin:10px 0 16px 0;font:700 28px/1.12 -apple-system,BlinkMacSystemFont,'Segoe UI',Roboto,Arial,sans-serif;color:#f5f6f7;">"#;
/// Before the body text.
pub const HTML_PART_5: &'static str = r#"</h1>
                <div style="border:1px solid #1d1f25;border-radius:8px;background:#0c0d10;padding:18px;font:400 16px/1.6 -apple-system,BlinkMacSystemFont,'Segoe UI',Roboto,Arial,sans-serif;color:#a7a9b0;white-space:pre-line;">"#;
/// Before the repository button.
pub const HTML_PART_6: &'static str = r#"</div>
                "#;
/// Before the field rows.
pub const HTML_PART_7: &'static str = r#"
                <table role="presentation" width="100%" cellspacing="0" cellpadding="0" style="margin-top:18px;border-collapse:collapse;">"#;
/// Before the footer.
pub const HTML_PART_8: &'static str = r#"</table>
              </td>
            </tr>
            <tr>
              <td translate="no" class="notranslate" style="padding:18px 4px 0 4px;font:400 12px/1.6 -apple-system,BlinkMacSystemFont,'Segoe UI',Roboto,Arial,sans-serif;color:#6b6e77;">
                "#;
/// The end of the document.
pub const HTML_PART_9: &'static str = r#"
              </td>
            </tr>
          </table>
        </td>
      </tr>
    </table>
  </body>
</html>"#;

// ---------------------------------------------------------------------------
// Locale
// ---------------------------------------------------------------------------

/// An Accept-Language part asks for French when, leading whitespace removed,
/// it starts with `fr` in any ASCII case.
pub open spec fn part_asks_french(part: Seq<char>) -> bool {
    let t = trim_start_seq(part);
    t.len() >= 2 && ascii_lower(t[0]) == 'f' && ascii_lower(t[1]) == 'r'
}

/// Some comma-separated part of the header asks for French.
pub open spec fn header_asks_french(value: Seq<char>) -> bool {
    exists|i: int|
        0 <= i < split_seq(value, Sep::Char(',')).len() && part_asks_french(
            #[trigger] split_seq(value, Sep::Char(','))[i],
        )
}

pub open spec fn locale_code(l: EmailLocale) -> Seq<char> {
    match l {
        EmailLocale::En => "en"@,
        EmailLocale::Fr => "fr"@,
    }
}

fn asks_french(v: &str) -> (r: bool)
    ensures
        r == header_asks_french(v@),
{
    let cs = chars_of(v);
    let parts = split_chars(cs.as_slice(), Sep::Char(','));
    let ghost ps = split_seq(v@, Sep::Char(','));
    for i in 0..parts.len()
        invariant
            seqs_of(parts@) == ps,
            ps == split_seq(v@, Sep::Char(',')),
            forall|j: int| 0 <= j < i ==> !part_asks_french(#[trigger] ps[j]),
    {
        assert(seqs_of(parts@)[i as int] == parts@[i as int]@);
        let t = trim_start_chars(parts[i].as_slice());
        assert(t@ == trim_start_seq(ps[i as int]));
        if t.len() >= 2 && ascii_lower_char(t[0]) == 'f' && ascii_lower_char(t[1]) == 'r' {
            assert(part_asks_french(split_seq(v@, Sep::Char(','))[i as int]));
            return true;
        }
    }
    assert forall|j: int| 0 <= j < ps.len() implies !part_asks_french(#[trigger] ps[j]) by {
        assert(seqs_of(parts@).len() == parts@.len());
    }
    false
}

impl EmailLocale {
    /// French for `fr` in any ASCII case, English for anything else.
    pub fn parse_lossy(value: &str) -> (r: EmailLocale)
        ensures
            r == (if crate::text::lower_seq(value@) == crate::text::lower_seq("fr"@) {
                EmailLocale::Fr
            } else {
                EmailLocale::En
            }),
    {
        if eq_ignore_ascii_case(value, "fr") {
            EmailLocale::Fr
        } else {
            EmailLocale::En
        }
    }

    /// French when some part of an Accept-Language header asks for it,
    /// English otherwise and without a header.
    pub fn from_accept_language(value: Option<&str>) -> (r: EmailLocale)
        ensures
            r == (match value {
                Some(v) => if header_asks_french(v@) {
                    EmailLocale::Fr
                } else {
                    EmailLocale::En
                },
                None => EmailLocale::En,
            }),
    {
        match value {
            None => EmailLocale::En,
            Some(v) => if asks_french(v) {
                EmailLocale::Fr
            } else {
                EmailLocale::En
            },
        }
    }

    /// The language code of the HTML document.
    pub fn code(self) -> (r: &'static str)
        ensures
            r@ == locale_code(self),
    {
        match self {
            EmailLocale::En => "en",
            EmailLocale::Fr => "fr",
        }
    }
}

// ---------------------------------------------------------------------------
// Escaping
// ---------------------------------------------------------------------------

/// The HTML escape of one character: `&`, `<`, `>` and `"` become entities.
pub open spec fn escape_html_char(c: char) -> Seq<char> {
    if c == '&' {
        "&amp;"@
    } else if c == '<' {
        "&lt;"@
    } else if c == '>' {
        "&gt;"@
    } else if c == '"' {
        "&quot;"@
    } else {
        seq![c]
    }
}

/// The attribute escape of one character: the HTML escape, and `'` as `&#39;`.
pub open spec fn escape_attr_char(c: char) -> Seq<char> {
    if c == '\'' {
        "&#39;"@
    } else {
        escape_html_char(c)
    }
}

pub open spec fn escape_html_spec(s: Seq<char>) -> Seq<char>
    decreases s.len(),
{
    if s.len() == 0 {
        Seq::empty()
    } else {
        escape_html_spec(s.drop_last()) + escape_html_char(s.last())
    }
}

pub open spec fn escape_attr_spec(s: Seq<char>) -> Seq<char>
    decreases s.len(),
{
    if s.len() == 0 {
        Seq::empty()
    } else {
        escape_attr_spec(s.drop_last()) + escape_attr_char(s.last())
    }
}

/// Escapes text for an HTML element.
pub fn escape_html(value: &str) -> (r: String)
    ensures
        r@ == escape_html_spec(value@),
{
    let cs = chars_of(value);
    let mut r = String::new();
    for i in 0..cs.len()
        invariant
            cs@ == value@,
            r@ == escape_html_spec(cs@.take(i as int)),
    {
        let c = cs[i];
        proof {
            assert(cs@.take(i + 1).drop_last() =~= cs@.take(i as int));
            assert(cs@.take(i + 1).last() == c);
        }
        if c == '&' {
            push_str(&mut r, "&amp;");
        } else if c == '<' {
            push_str(&mut r, "&lt;");
        } else if c == '>' {
            push_str(&mut r, "&gt;");
        } else if c == '"' {
            push_str(&mut r, "&quot;");
        } else {
            push_char(&mut r, c);
            assert(r@ =~= escape_html_spec(cs@.take(i as int)) + seq![c]);
        }
    }
    assert(cs@.take(cs@.len() as int) =~= cs@);
    r
}

/// Escapes text for an HTML attribute value.
pub fn escape_attr(value: &str) -> (r: String)
    ensures
        r@ == escape_attr_spec(value@),
{
    let cs = chars_of(value);
    let mut r = String::new();
    for i in 0..cs.len()
        invariant
            cs@ == value@,
            r@ == escape_attr_spec(cs@.take(i as int)),
    {
        let c = cs[i];
        proof {
            assert(cs@.take(i + 1).drop_last() =~= cs@.take(i as int));
            assert(cs@.take(i + 1).last() == c);
        }
        if c == '\'' {
            push_str(&mut r, "&#39;");
        } else if c == '&' {
            push_str(&mut r, "&amp;");
        } else if c == '<' {
            push_str(&mut r, "&lt;");
        } else if c == '>' {
            push_str(&mut r, "&gt;");
        } else if c == '"' {
            push_str(&mut r, "&quot;");
        } else {
            push_char(&mut r, c);
            assert(r@ =~= escape_attr_spec(cs@.take(i as int)) + seq![c]);
        }
    }
    assert(cs@.take(cs@.len() as int) =~= cs@);
    r
}


// ---------------------------------------------------------------------------
// The first line of a text
// ---------------------------------------------------------------------------

/// The index of the first `'\n'` in `s`, or `s.len()` when there is none.
pub open spec fn newline_at(s: Seq<char>) -> int
    decreases s.len(),
{
    if s.len() == 0 {
        0
    } else {
        let p = newline_at(s.drop_last());
        if p < s.len() - 1 {
            p
        } else if s.last() == '\n' {
            s.len() - 1
        } else {
            s.len() as int
        }
    }
}

pub proof fn lemma_newline_at_bounds(s: Seq<char>)
    ensures
        0 <= newline_at(s) <= s.len(),
        newline_at(s) < s.len() ==> s[newline_at(s)] == '\n',
    decreases s.len(),
{
    if s.len() > 0 {
        lemma_newline_at_bounds(s.drop_last());
    }
}

/// `str::lines().next()`: nothing for an empty text; otherwise the text up
/// to the first line feed, without a carriage return just before it.
pub open spec fn first_line(s: Seq<char>) -> Option<Seq<char>> {
    if s.len() == 0 {
        None
    } else {
        let k = newline_at(s);
        if k < s.len() && k > 0 && s[k - 1] == '\r' {
            Some(s.take(k - 1))
        } else {
            Some(s.take(k))
        }
    }
}

/// The first line of `text`, or `fallback` when `text` is empty.
pub open spec fn first_line_or(text: Seq<char>, fallback: Seq<char>) -> Seq<char> {
    match first_line(text) {
        Some(l) => l,
        None => fallback,
    }
}

fn first_line_or_exec(text: &str, fallback: &str) -> (r: String)
    ensures
        r@ == first_line_or(text@, fallback@),
{
    let cs = chars_of(text);
    if cs.len() == 0 {
        return crate::text::owned(fallback);
    }
    let mut pos: usize = 0;
    for i in 0..cs.len()
        invariant
            cs@ == text@,
            pos as int == newline_at(cs@.take(i as int)),
            pos <= i,
    {
        proof {
            assert(cs@.take(i + 1).drop_last() =~= cs@.take(i as int));
            lemma_newline_at_bounds(cs@.take(i as int));
        }
        if pos == i && cs[i] != '\n' {
            pos = i + 1;
        }
    }
    assert(cs@.take(cs@.len() as int) =~= cs@);
    proof {
        lemma_newline_at_bounds(cs@);
    }
    let end = if pos < cs.len() && pos > 0 && cs[pos - 1] == '\r' {
        pos - 1
    } else {
        pos
    };
    let line = crate::text::copy_range(cs.as_slice(), 0, end);
    assert(line@ =~= cs@.take(end as int));
    crate::text::string_of(line.as_slice())
}


// ---------------------------------------------------------------------------
// The branded layout
// ---------------------------------------------------------------------------

/// The fields of an email as (name, value) pairs.
pub open spec fn fields_view(fields: Seq<EmailField>) -> Seq<(Seq<char>, Seq<char>)> {
    fields.map_values(|f: EmailField| (f.name@, f.value@))
}

/// One table row per field with a non-empty value, name and value escaped.
pub open spec fn field_rows(fields: Seq<(Seq<char>, Seq<char>)>) -> Seq<char>
    decreases fields.len(),
{
    if fields.len() == 0 {
        Seq::empty()
    } else {
        let prev = field_rows(fields.drop_last());
        let f = fields.last();
        if f.1.len() == 0 {
            prev
        } else {
            prev + FIELD_ROW_OPEN@ + escape_html_spec(f.0) + FIELD_ROW_MID@ + escape_html_spec(f.1)
                + FIELD_ROW_CLOSE@
        }
    }
}

/// The repository button, present only with a link.
pub open spec fn action_block(url: Option<Seq<char>>) -> Seq<char> {
    match url {
        Some(u) => ACTION_OPEN@ + escape_attr_spec(u) + ACTION_CLOSE@,
        None => Seq::empty(),
    }
}

pub open spec fn footer_text(l: EmailLocale) -> Seq<char> {
    match l {
        EmailLocale::En => "UseStakly public beta · OSS quality radar for developers and agents."@,
        EmailLocale::Fr => "Beta publique UseStakly · Radar de qualité OSS pour développeurs et agents."@,
    }
}

/// The HTML document of a branded email: the language code, a hidden
/// preview (the first line of the text, or the subject), the logo, the
/// eyebrow, the title, the text, the button and the field rows, every piece
/// of content escaped.
pub open spec fn branded_html(
    locale: EmailLocale,
    subject: Seq<char>,
    title: Seq<char>,
    eyebrow: Seq<char>,
    text: Seq<char>,
    fields: Seq<(Seq<char>, Seq<char>)>,
    action_url: Option<Seq<char>>,
) -> Seq<char> {
    HTML_PART_0@ + locale_code(locale) + HTML_PART_1@ + escape_html_spec(
        first_line_or(text, subject),
    ) + HTML_PART_2@ + LOGO_URL@ + HTML_PART_3@ + escape_html_spec(eyebrow) + HTML_PART_4@
        + escape_html_spec(title) + HTML_PART_5@ + escape_html_spec(text) + HTML_PART_6@
        + action_block(action_url) + HTML_PART_7@ + field_rows(fields) + HTML_PART_8@
        + escape_html_spec(footer_text(locale)) + HTML_PART_9@
}

pub open spec fn opt_view(o: Option<&str>) -> Option<Seq<char>> {
    match o {
        Some(s) => Some(s@),
        None => None,
    }
}

fn render_field_rows(fields: &[EmailField]) -> (r: String)
    ensures
        r@ == field_rows(fields_view(fields@)),
{
    let ghost fv = fields_view(fields@);
    let mut r = String::new();
    for i in 0..fields.len()
        invariant
            fv == fields_view(fields@),
            r@ == field_rows(fv.take(i as int)),
    {
        proof {
            assert(fv.take(i + 1).drop_last() =~= fv.take(i as int));
            assert(fv.take(i + 1).last() == (fields@[i as int].name@, fields@[i as int].value@));
        }
        let f = &fields[i];
        if !f.value.as_str().is_empty() {
            push_str(&mut r, FIELD_ROW_OPEN);
            let n = escape_html(f.name.as_str());
            push_str(&mut r, n.as_str());
            push_str(&mut r, FIELD_ROW_MID);
            let v = escape_html(f.value.as_str());
            push_str(&mut r, v.as_str());
            push_str(&mut r, FIELD_ROW_CLOSE);
        } else {
            assert(f.value@.len() == 0);
        }
    }
    assert(fv.take(fields@.len() as int) =~= fv);
    r
}

fn branded_email(
    locale: EmailLocale,
    subject: &str,
    title: &str,
    eyebrow: &str,
    text: &str,
    fields: &[EmailField],
    action_url: Option<&str>,
) -> (r: EmailTemplate)
    ensures
        r.subject@ == subject@,
        r.text@ == text@,
        r.html@ == branded_html(
            locale,
            subject@,
            title@,
            eyebrow@,
            text@,
            fields_view(fields@),
            opt_view(action_url),
        ),
{
    let rows = render_field_rows(fields);
    let action = match action_url {
        Some(url) => {
            let mut a = String::new();
            push_str(&mut a, ACTION_OPEN);
            let e = escape_attr(url);
            push_str(&mut a, e.as_str());
            push_str(&mut a, ACTION_CLOSE);
            a
        },
        None => String::new(),
    };
    let preview = first_line_or_exec(text, subject);
    let footer = match locale {
        EmailLocale::En => "UseStakly public beta · OSS quality radar for developers and agents.",
        EmailLocale::Fr => "Beta publique UseStakly · Radar de qualité OSS pour développeurs et agents.",
    };
    let mut html = String::new();
    push_str(&mut html, HTML_PART_0);
    push_str(&mut html, locale.code());
    push_str(&mut html, HTML_PART_1);
    push_str(&mut html, escape_html(preview.as_str()).as_str());
    push_str(&mut html, HTML_PART_2);
    push_str(&mut html, LOGO_URL);
    push_str(&mut html, HTML_PART_3);
    push_str(&mut html, escape_html(eyebrow).as_str());
    push_str(&mut html, HTML_PART_4);
    push_str(&mut html, escape_html(title).as_str());
    push_str(&mut html, HTML_PART_5);
    push_str(&mut html, escape_html(text).as_str());
    push_str(&mut html, HTML_PART_6);
    push_str(&mut html, action.as_str());
    push_str(&mut html, HTML_PART_7);
    push_str(&mut html, rows.as_str());
    push_str(&mut html, HTML_PART_8);
    push_str(&mut html, escape_html(footer).as_str());
    push_str(&mut html, HTML_PART_9);
    EmailTemplate { subject: crate::text::owned(subject), text: crate::text::owned(text), html }
}


// ---------------------------------------------------------------------------
// The emails
// ---------------------------------------------------------------------------

pub open spec fn test_subject(l: EmailLocale) -> Seq<char> {
    match l {
        EmailLocale::En => "UseStakly notification channel connected"@,
        EmailLocale::Fr => "Canal de notification UseStakly connecté"@,
    }
}

pub open spec fn test_body(l: EmailLocale) -> Seq<char> {
    match l {
        EmailLocale::En => "UseStakly can now send critical watch alerts to this email address."@,
        EmailLocale::Fr => "UseStakly peut désormais envoyer les alertes de veille critiques à cette adresse email."@,
    }
}

pub open spec fn test_title(l: EmailLocale) -> Seq<char> {
    match l {
        EmailLocale::En => "Notification channel connected"@,
        EmailLocale::Fr => "Canal de notification connecté"@,
    }
}

pub open spec fn test_eyebrow(l: EmailLocale) -> Seq<char> {
    match l {
        EmailLocale::En => "Channel ready"@,
        EmailLocale::Fr => "Canal prêt"@,
    }
}

/// The email confirming that a channel is connected.
pub fn render_test_email(locale: EmailLocale) -> (r: EmailTemplate)
    ensures
        r.subject@ == test_subject(locale),
        r.text@ == test_body(locale),
        r.html@ == branded_html(
            locale,
            test_subject(locale),
            test_title(locale),
            test_eyebrow(locale),
            test_body(locale),
            Seq::empty(),
            None,
        ),
{
    let subject = match locale {
        EmailLocale::En => "UseStakly notification channel connected",
        EmailLocale::Fr => "Canal de notification UseStakly connecté",
    };
    let body = match locale {
        EmailLocale::En => "UseStakly can now send critical watch alerts to this email address.",
        EmailLocale::Fr => "UseStakly peut désormais envoyer les alertes de veille critiques à cette adresse email.",
    };
    let title = match locale {
        EmailLocale::En => "Notification channel connected",
        EmailLocale::Fr => "Canal de notification connecté",
    };
    let eyebrow = match locale {
        EmailLocale::En => "Channel ready",
        EmailLocale::Fr => "Canal prêt",
    };
    let no_fields: Vec<EmailField> = Vec::new();
    assert(fields_view(no_fields@) =~= Seq::empty());
    branded_email(locale, subject, title, eyebrow, body, no_fields.as_slice(), None)
}

pub open spec fn repo_label(l: EmailLocale) -> Seq<char> {
    match l {
        EmailLocale::En => "Repository"@,
        EmailLocale::Fr => "Dépôt"@,
    }
}

pub open spec fn alert_eyebrow(l: EmailLocale) -> Seq<char> {
    match l {
        EmailLocale::En => "Watch alert"@,
        EmailLocale::Fr => "Alerte de veille"@,
    }
}

/// A blank line, then `name: value`, for each field with a non-empty value.
pub open spec fn field_lines(fields: Seq<(Seq<char>, Seq<char>)>) -> Seq<char>
    decreases fields.len(),
{
    if fields.len() == 0 {
        Seq::empty()
    } else {
        let prev = field_lines(fields.drop_last());
        let f = fields.last();
        if f.1.len() == 0 {
            prev
        } else {
            prev + "\n\n"@ + f.0 + ": "@ + f.1
        }
    }
}

/// The plain text of a watch alert: the intro, the description, the
/// repository link when there is one, then the fields.
pub open spec fn alert_text(
    locale: EmailLocale,
    intro: Seq<char>,
    description: Seq<char>,
    repo_url: Option<Seq<char>>,
    fields: Seq<(Seq<char>, Seq<char>)>,
) -> Seq<char> {
    let base = intro + "\n\n"@ + description;
    let with_link = match repo_url {
        Some(u) => base + "\n\n"@ + repo_label(locale) + ": "@ + u,
        None => base,
    };
    with_link + field_lines(fields)
}

/// The email of a watch alert; the repository link, when given, becomes the
/// button of the HTML version.
pub fn render_watch_alert_email(
    locale: EmailLocale,
    subject: &str,
    title: &str,
    intro: &str,
    description: &str,
    repo_url: Option<&str>,
    fields: &[EmailField],
) -> (r: EmailTemplate)
    ensures
        r.subject@ == subject@,
        r.text@ == alert_text(locale, intro@, description@, opt_view(repo_url), fields_view(fields@)),
        r.html@ == branded_html(
            locale,
            subject@,
            title@,
            alert_eyebrow(locale),
            alert_text(locale, intro@, description@, opt_view(repo_url), fields_view(fields@)),
            fields_view(fields@),
            opt_view(repo_url),
        ),
{
    let mut text = String::new();
    push_str(&mut text, intro);
    push_str(&mut text, "\n\n");
    push_str(&mut text, description);
    if let Some(url) = repo_url {
        let label = match locale {
            EmailLocale::En => "Repository",
            EmailLocale::Fr => "Dépôt",
        };
        push_str(&mut text, "\n\n");
        push_str(&mut text, label);
        push_str(&mut text, ": ");
        push_str(&mut text, url);
    }
    let ghost head = text@;
    let ghost fv = fields_view(fields@);
    for i in 0..fields.len()
        invariant
            fv == fields_view(fields@),
            text@ == head + field_lines(fv.take(i as int)),
    {
        proof {
            assert(fv.take(i + 1).drop_last() =~= fv.take(i as int));
            assert(fv.take(i + 1).last() == (fields@[i as int].name@, fields@[i as int].value@));
        }
        let f = &fields[i];
        if !f.value.as_str().is_empty() {
            push_str(&mut text, "\n\n");
            push_str(&mut text, f.name.as_str());
            push_str(&mut text, ": ");
            push_str(&mut text, f.value.as_str());
            assert(text@ =~= head + field_lines(fv.take(i + 1)));
        }
    }
    assert(fv.take(fields@.len() as int) =~= fv);
    let eyebrow = match locale {
        EmailLocale::En => "Watch alert",
        EmailLocale::Fr => "Alerte de veille",
    };
    branded_email(locale, subject, title, eyebrow, text.as_str(), fields, repo_url)
}


/// The sections of a digest as (title, items) pairs.
pub open spec fn sections_view(sections: Seq<EmailSection>) -> Seq<(Seq<char>, Seq<Seq<char>>)> {
    sections.map_values(|x: EmailSection| (x.title@, x.items.deep_view()))
}

/// The first five items of a section, one per line.
pub open spec fn section_lines(items: Seq<Seq<char>>) -> Seq<char> {
    join_seq(items.take(if items.len() < 5 { items.len() as int } else { 5 }), "\n"@)
}

/// For each non-empty section: a blank line, its title, then its lines.
pub open spec fn section_blocks(sections: Seq<(Seq<char>, Seq<Seq<char>>)>) -> Seq<char>
    decreases sections.len(),
{
    if sections.len() == 0 {
        Seq::empty()
    } else {
        let prev = section_blocks(sections.drop_last());
        let x = sections.last();
        if x.1.len() == 0 {
            prev
        } else {
            prev + "\n\n"@ + x.0 + "\n"@ + section_lines(x.1)
        }
    }
}

/// One field per non-empty section: its title and its lines.
pub open spec fn section_fields(sections: Seq<(Seq<char>, Seq<Seq<char>>)>) -> Seq<
    (Seq<char>, Seq<char>),
>
    decreases sections.len(),
{
    if sections.len() == 0 {
        Seq::empty()
    } else {
        let prev = section_fields(sections.drop_last());
        let x = sections.last();
        if x.1.len() == 0 {
            prev
        } else {
            prev.push((x.0, section_lines(x.1)))
        }
    }
}

pub open spec fn digest_intro(l: EmailLocale) -> Seq<char> {
    match l {
        EmailLocale::En => "UseStakly daily watch digest."@,
        EmailLocale::Fr => "Résumé quotidien de veille UseStakly."@,
    }
}

pub open spec fn digest_subject(l: EmailLocale) -> Seq<char> {
    match l {
        EmailLocale::En => "UseStakly daily watch digest"@,
        EmailLocale::Fr => "Résumé quotidien de veille UseStakly"@,
    }
}

pub open spec fn digest_title(l: EmailLocale) -> Seq<char> {
    match l {
        EmailLocale::En => "Daily watch digest"@,
        EmailLocale::Fr => "Résumé quotidien de veille"@,
    }
}

pub open spec fn digest_eyebrow(l: EmailLocale) -> Seq<char> {
    match l {
        EmailLocale::En => "Watch summary"@,
        EmailLocale::Fr => "Résumé de veille"@,
    }
}

/// The plain text of a digest: the intro, then one block per non-empty
/// section.
pub open spec fn digest_text(l: EmailLocale, sections: Seq<(Seq<char>, Seq<Seq<char>>)>) -> Seq<
    char,
> {
    digest_intro(l) + section_blocks(sections)
}

/// The daily digest email; empty sections are left out and each section
/// shows at most five items.
pub fn render_digest_email(locale: EmailLocale, sections: &[EmailSection]) -> (r: EmailTemplate)
    ensures
        r.subject@ == digest_subject(locale),
        r.text@ == digest_text(locale, sections_view(sections@)),
        r.html@ == branded_html(
            locale,
            digest_subject(locale),
            digest_title(locale),
            digest_eyebrow(locale),
            digest_text(locale, sections_view(sections@)),
            section_fields(sections_view(sections@)),
            None,
        ),
{
    let mut text = String::new();
    let intro = match locale {
        EmailLocale::En => "UseStakly daily watch digest.",
        EmailLocale::Fr => "Résumé quotidien de veille UseStakly.",
    };
    push_str(&mut text, intro);
    let mut fields: Vec<EmailField> = Vec::new();
    let ghost sv = sections_view(sections@);
    for i in 0..sections.len()
        invariant
            sv == sections_view(sections@),
            text@ == digest_intro(locale) + section_blocks(sv.take(i as int)),
            fields_view(fields@) == section_fields(sv.take(i as int)),
    {
        proof {
            assert(sv.take(i + 1).drop_last() =~= sv.take(i as int));
            assert(sv.take(i + 1).last() == (
                sections@[i as int].title@,
                sections@[i as int].items.deep_view(),
            ));
        }
        let sec = &sections[i];
        if sec.items.len() > 0 {
            let first = take_strings(&sec.items, 5);
            let lines = join_strings(&first, "\n");
            assert(lines@ == section_lines(sec.items.deep_view()));
            push_str(&mut text, "\n\n");
            push_str(&mut text, sec.title.as_str());
            push_str(&mut text, "\n");
            push_str(&mut text, lines.as_str());
            let ghost before = fields_view(fields@);
            let t = crate::text::owned(sec.title.as_str());
            fields.push(EmailField { name: t, value: lines });
            assert(fields_view(fields@) =~= before.push((sec.title@, section_lines(sec.items.deep_view()))));
            assert(text@ =~= digest_intro(locale) + section_blocks(sv.take(i + 1)));
        } else {
            assert(sec.items.deep_view().len() == 0);
        }
    }
    assert(sv.take(sections@.len() as int) =~= sv);
    let subject = match locale {
        EmailLocale::En => "UseStakly daily watch digest",
        EmailLocale::Fr => "Résumé quotidien de veille UseStakly",
    };
    let title = match locale {
        EmailLocale::En => "Daily watch digest",
        EmailLocale::Fr => "Résumé quotidien de veille",
    };
    let eyebrow = match locale {
        EmailLocale::En => "Watch summary",
        EmailLocale::Fr => "Résumé de veille",
    };
    branded_email(locale, subject, title, eyebrow, text.as_str(), fields.as_slice(), None)
}


// ---------------------------------------------------------------------------
// Escaping laws
// ---------------------------------------------------------------------------

/// Escaped text holds no markup character: no `<`, `>` or `"` survives the
/// HTML escape.
pub proof fn lemma_escape_html_has_no_markup(s: Seq<char>)
    ensures
        forall|i: int|
            0 <= i < escape_html_spec(s).len() ==> #[trigger] escape_html_spec(s)[i] != '<'
                && escape_html_spec(s)[i] != '>' && escape_html_spec(s)[i] != '"',
    decreases s.len(),
{
    reveal_strlit("&amp;");
    reveal_strlit("&lt;");
    reveal_strlit("&gt;");
    reveal_strlit("&quot;");
    if s.len() > 0 {
        lemma_escape_html_has_no_markup(s.drop_last());
        let prev = escape_html_spec(s.drop_last());
        let tail = escape_html_char(s.last());
        assert forall|i: int| 0 <= i < escape_html_spec(s).len() implies #[trigger] escape_html_spec(
            s,
        )[i] != '<' && escape_html_spec(s)[i] != '>' && escape_html_spec(s)[i] != '"' by {
            if i >= prev.len() {
                assert(escape_html_spec(s)[i] == tail[i - prev.len()]);
            } else {
                assert(escape_html_spec(s)[i] == prev[i]);
            }
        }
    }
}

/// Attribute-escaped text holds no markup character and no quote of either
/// kind.
pub proof fn lemma_escape_attr_has_no_quotes(s: Seq<char>)
    ensures
        forall|i: int|
            0 <= i < escape_attr_spec(s).len() ==> #[trigger] escape_attr_spec(s)[i] != '<'
                && escape_attr_spec(s)[i] != '>' && escape_attr_spec(s)[i] != '"'
                && escape_attr_spec(s)[i] != '\'',
    decreases s.len(),
{
    reveal_strlit("&amp;");
    reveal_strlit("&lt;");
    reveal_strlit("&gt;");
    reveal_strlit("&quot;");
    reveal_strlit("&#39;");
    if s.len() > 0 {
        lemma_escape_attr_has_no_quotes(s.drop_last());
        let prev = escape_attr_spec(s.drop_last());
        let tail = escape_attr_char(s.last());
        assert forall|i: int| 0 <= i < escape_attr_spec(s).len() implies #[trigger] escape_attr_spec(
            s,
        )[i] != '<' && escape_attr_spec(s)[i] != '>' && escape_attr_spec(s)[i] != '"'
            && escape_attr_spec(s)[i] != '\'' by {
            if i >= prev.len() {
                assert(escape_attr_spec(s)[i] == tail[i - prev.len()]);
            } else {
                assert(escape_attr_spec(s)[i] == prev[i]);
            }
        }
    }
}

/// Text without markup characters or ampersands is left as it is.
pub proof fn lemma_escape_html_keeps_plain_text(s: Seq<char>)
    requires
        forall|i: int|
            0 <= i < s.len() ==> #[trigger] s[i] != '<' && s[i] != '>' && s[i] != '"' && s[i] != '&',
    ensures
        escape_html_spec(s) == s,
    decreases s.len(),
{
    if s.len() > 0 {
        lemma_escape_html_keeps_plain_text(s.drop_last());
        assert(s.drop_last().push(s.last()) =~= s);
    }
}

} // verus!
