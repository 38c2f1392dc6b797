//! Template-based notification rendering.
//!
//! A notification gives a list of fields; each `{{field}}` in the template is replaced by the
//! field's value, encoded to fit the template's type.
use vstd::prelude::*;

use crate::encode;
use crate::text;
use crate::types::{
    EpisodeDownloadedView, FailedData, FailedView, Notification, NotificationView,
};

verus! {

/// Template type — determines the content type and how values are encoded.
#[derive(Debug, PartialEq)]
pub enum TemplateType {
    Json(String),
    Form(String),
}

#[verifier::ext_equal]
pub enum TemplateView {
    Json(Seq<char>),
    Form(Seq<char>),
}

impl View for TemplateType {
    type V = TemplateView;

    open spec fn view(&self) -> TemplateView {
        match self {
            TemplateType::Json(t) => TemplateView::Json(t@),
            TemplateType::Form(t) => TemplateView::Form(t@),
        }
    }
}

/// The view of an optional template.
pub open spec fn template_opt(template: Option<TemplateType>) -> Option<TemplateView> {
    match template {
        Some(t) => Some(t@),
        None => None,
    }
}

/// Webhook configuration, ready for use.
#[derive(Debug, PartialEq)]
pub struct WebhookConfig {
    pub url: String,
    pub template: TemplateType,
    /// Template for failures; the built-in one is used where there is none.
    pub error_template: Option<TemplateType>,
}

#[verifier::ext_equal]
pub struct WebhookView {
    pub url: Seq<char>,
    pub template: TemplateView,
    pub error_template: Option<TemplateView>,
}

impl View for WebhookConfig {
    type V = WebhookView;

    open spec fn view(&self) -> WebhookView {
        WebhookView {
            url: self.url@,
            template: self.template@,
            error_template: template_opt(self.error_template),
        }
    }
}

// ── Presets ──

/// Named notification formats.
#[derive(Debug, Clone, Copy, PartialEq, Eq, Structural)]
pub enum Preset {
    Bark,
    Gotify,
    Serverchan,
}

pub const BARK: &'static str =
    r#"{"title":"{{anime_name}} 第{{episode}}集","body":"{{summary}}","icon":"{{image_url}}","group":"bangumi-rss"}"#;

pub const GOTIFY: &'static str =
    r#"{"title":"{{anime_name}} 第{{episode}}集","message":"{{summary}}","priority":5}"#;

pub const SERVERCHAN: &'static str = "title={{anime_name}} 第{{episode}}集 下载完成&desp={{summary}}";

pub const BARK_ERROR: &'static str =
    r#"{"title":"⚠️ {{title}}","body":"{{message}}","icon":"https://cdn.jsdelivr.net/gh/twitter/twemoji@14.0.2/assets/72x72/26a0.png","group":"bangumi-rss-errors"}"#;

pub const GOTIFY_ERROR: &'static str =
    r#"{"title":"{{title}}","message":"{{message}}","priority":8}"#;

pub const SERVERCHAN_ERROR: &'static str = "title={{title}}&desp=❌ {{message}}";

/// The template used without a preset and without a custom template.
pub const DEFAULT_TEMPLATE: &'static str =
    r#"{"title":"{{anime_name}} 第{{episode}}集","body":"{{summary}}","image":"{{image_url}}"}"#;

/// Built-in failure template, with both `body` (Bark) and `message` (Gotify).
pub const FAILED_JSON: &'static str =
    r#"{"title":"{{title}}","body":"{{message}}","message":"{{message}}"}"#;

/// Built-in failure template in form notation.
pub const FAILED_FORM: &'static str = "title={{title}}&desp={{message}}";

/// The template of a preset.
pub open spec fn preset_template(preset: Preset) -> TemplateView {
    match preset {
        Preset::Bark => TemplateView::Json(BARK@),
        Preset::Gotify => TemplateView::Json(GOTIFY@),
        Preset::Serverchan => TemplateView::Form(SERVERCHAN@),
    }
}

/// The failure template of a preset.
pub open spec fn preset_error(preset: Preset) -> TemplateView {
    match preset {
        Preset::Bark => TemplateView::Json(BARK_ERROR@),
        Preset::Gotify => TemplateView::Json(GOTIFY_ERROR@),
        Preset::Serverchan => TemplateView::Form(SERVERCHAN_ERROR@),
    }
}

/// The preset of a name.
pub open spec fn preset_named(name: Seq<char>) -> Option<Preset> {
    if name == "bark"@ {
        Some(Preset::Bark)
    } else if name == "gotify"@ {
        Some(Preset::Gotify)
    } else if name == "serverchan"@ {
        Some(Preset::Serverchan)
    } else {
        None
    }
}

impl Preset {
    /// The preset's template.
    pub fn template(self) -> (r: TemplateType)
        ensures
            r@ == preset_template(self),
    {
        match self {
            Preset::Bark => TemplateType::Json(BARK.to_owned()),
            Preset::Gotify => TemplateType::Json(GOTIFY.to_owned()),
            Preset::Serverchan => TemplateType::Form(SERVERCHAN.to_owned()),
        }
    }

    /// The preset's failure template.
    pub fn error_template(self) -> (r: TemplateType)
        ensures
            r@ == preset_error(self),
    {
        match self {
            Preset::Bark => TemplateType::Json(BARK_ERROR.to_owned()),
            Preset::Gotify => TemplateType::Json(GOTIFY_ERROR.to_owned()),
            Preset::Serverchan => TemplateType::Form(SERVERCHAN_ERROR.to_owned()),
        }
    }

    /// The preset of a name.
    pub fn from_name(name: &str) -> (r: Option<Preset>)
        ensures
            r == preset_named(name@),
    {
        if *name == *"bark" {
            Some(Preset::Bark)
        } else if *name == *"gotify" {
            Some(Preset::Gotify)
        } else if *name == *"serverchan" {
            Some(Preset::Serverchan)
        } else {
            None
        }
    }
}

// ── Template resolution ──

/// A custom template: JSON if its first character that is no white space is `{` or `[`, else a
/// form.
pub open spec fn custom_template(t: Seq<char>) -> TemplateView {
    let trimmed = text::trimmed(t);
    if trimmed.len() > 0 && (trimmed[0] == '{' || trimmed[0] == '[') {
        TemplateView::Json(t)
    } else {
        TemplateView::Form(t)
    }
}

fn classify(t: &str) -> (r: TemplateType)
    ensures
        r@ == custom_template(t@),
{
    let trimmed = text::chars_of(&text::trim(t));
    if trimmed.len() > 0 && (trimmed[0] == '{' || trimmed[0] == '[') {
        TemplateType::Json(t.to_owned())
    } else {
        TemplateType::Form(t.to_owned())
    }
}

/// The main template: preset, else a custom template that is not empty, else the default.
pub open spec fn main_template(preset: Option<Preset>, custom: Option<Seq<char>>) -> TemplateView {
    match (preset, custom) {
        (Some(p), _) => preset_template(p),
        (None, Some(t)) => if t.len() > 0 {
            custom_template(t)
        } else {
            TemplateView::Json(DEFAULT_TEMPLATE@)
        },
        (None, None) => TemplateView::Json(DEFAULT_TEMPLATE@),
    }
}

/// Resolves the main template. Priority: preset, custom, default.
pub fn resolve_template(preset: Option<Preset>, custom: Option<&str>) -> (r: TemplateType)
    ensures
        r@ == main_template(preset, text::opt_str(custom)),
{
    if let Some(p) = preset {
        return p.template();
    }
    if let Some(t) = custom {
        if !t.is_empty() {
            return classify(t);
        }
    }
    TemplateType::Json(DEFAULT_TEMPLATE.to_owned())
}

/// The failure template: a custom one that is not empty, else that of the preset, else none.
pub open spec fn failure_template(
    preset: Option<Preset>,
    custom: Option<Seq<char>>,
) -> Option<TemplateView> {
    let by_preset = match preset {
        Some(p) => Some(preset_error(p)),
        None => None,
    };
    match custom {
        Some(t) => if t.len() > 0 {
            Some(custom_template(t))
        } else {
            by_preset
        },
        None => by_preset,
    }
}

fn resolve_error_template(preset: Option<Preset>, custom: Option<&str>) -> (r: Option<TemplateType>)
    ensures
        template_opt(r) == failure_template(preset, text::opt_str(custom)),
{
    if let Some(t) = custom {
        if !t.is_empty() {
            return Some(classify(t));
        }
    }
    match preset {
        Some(p) => Some(p.error_template()),
        None => None,
    }
}

/// Resolves the webhook configuration; none without a URL.
///
/// Main template: preset, custom, default. Failure template: custom, preset, none.
pub fn resolve_webhook(
    url: &str,
    preset: Option<Preset>,
    custom_template: Option<&str>,
    custom_error_template: Option<&str>,
) -> (r: Option<WebhookConfig>)
    ensures
        url@.len() == 0 ==> r is None,
        url@.len() > 0 ==> (r matches Some(w) && w@ == (WebhookView {
            url: url@,
            template: main_template(preset, text::opt_str(custom_template)),
            error_template: failure_template(preset, text::opt_str(custom_error_template)),
        })),
{
    if url.is_empty() {
        return None;
    }
    Some(
        WebhookConfig {
            url: url.to_owned(),
            template: resolve_template(preset, custom_template),
            error_template: resolve_error_template(preset, custom_error_template),
        },
    )
}

// ── Fields ──

/// A field: its name and its value.
pub struct Field {
    pub key: &'static str,
    pub value: String,
}

/// The views of fields.
pub open spec fn field_views(fields: Seq<Field>) -> Seq<(Seq<char>, Seq<char>)> {
    Seq::new(fields.len(), |i: int| (fields[i].key@, fields[i].value@))
}

/// An optional text, empty where there is none.
pub open spec fn or_empty(s: Option<Seq<char>>) -> Seq<char> {
    match s {
        Some(t) => t,
        None => seq![],
    }
}

/// An optional number in decimal notation, empty where there is none.
pub open spec fn number_or_empty(n: Option<u32>) -> Seq<char> {
    match n {
        Some(v) => text::decimal(v as nat),
        None => seq![],
    }
}

/// The fields of a notification, in the order in which they are replaced.
pub open spec fn fields_of(n: NotificationView) -> Seq<(Seq<char>, Seq<char>)> {
    match n {
        NotificationView::EpisodeDownloaded(d) => seq![
            ("type"@, "episode_downloaded"@),
            ("anime_name"@, d.anime_name),
            ("season"@, text::decimal(d.season as nat)),
            ("episode"@, text::decimal(d.episode as nat)),
            ("library_path"@, d.library_path),
            ("name_cn"@, or_empty(d.name_cn)),
            ("name_original"@, or_empty(d.name_original)),
            ("summary"@, or_empty(d.summary)),
            ("rating"@, or_empty(d.rating)),
            ("image_url"@, or_empty(d.image_url)),
            ("eps_count"@, number_or_empty(d.eps_count)),
            ("message"@, d.anime_name + " 第"@ + text::decimal(d.episode as nat) + "集 下载完成"@),
        ],
        NotificationView::Failed(f) => seq![
            ("type"@, "failed"@),
            ("context"@, f.title),
            ("error"@, f.message),
            ("title"@, f.title),
            ("message"@, "[失败] "@ + f.title + ": "@ + f.message),
        ],
    }
}

fn text_or_empty(s: &Option<String>) -> (r: String)
    ensures
        r@ == or_empty(text::opt(*s)),
{
    match s {
        Some(t) => t.clone(),
        None => String::new(),
    }
}

/// The fields of a notification.
pub fn notification_to_fields(n: &Notification) -> (r: Vec<Field>)
    ensures
        field_views(r@) == fields_of(n@),
{
    let mut out: Vec<Field> = Vec::new();
    match n {
        Notification::EpisodeDownloaded(d) => {
            let episode = text::decimal_text(d.episode as u64);
            let mut message = d.anime_name.clone();
            message.append(" 第");
            message.append(&episode);
            message.append("集 下载完成");
            let eps_count = match d.eps_count {
                Some(c) => text::decimal_text(c as u64),
                None => String::new(),
            };
            out.push(Field { key: "type", value: "episode_downloaded".to_owned() });
            out.push(Field { key: "anime_name", value: d.anime_name.clone() });
            out.push(Field { key: "season", value: text::decimal_text(d.season as u64) });
            out.push(Field { key: "episode", value: episode });
            out.push(Field { key: "library_path", value: d.library_path.clone() });
            out.push(Field { key: "name_cn", value: text_or_empty(&d.name_cn) });
            out.push(Field { key: "name_original", value: text_or_empty(&d.name_original) });
            out.push(Field { key: "summary", value: text_or_empty(&d.summary) });
            out.push(Field { key: "rating", value: text_or_empty(&d.rating) });
            out.push(Field { key: "image_url", value: text_or_empty(&d.image_url) });
            out.push(Field { key: "eps_count", value: eps_count });
            out.push(Field { key: "message", value: message });
        },
        Notification::Failed(f) => {
            let mut message = "[失败] ".to_owned();
            message.append(&f.title);
            message.append(": ");
            message.append(&f.message);
            out.push(Field { key: "type", value: "failed".to_owned() });
            out.push(Field { key: "context", value: f.title.clone() });
            out.push(Field { key: "error", value: f.message.clone() });
            out.push(Field { key: "title", value: f.title.clone() });
            out.push(Field { key: "message", value: message });
        },
    }
    assert(field_views(out@) =~= fields_of(n@));
    out
}

// ── Rendering ──

/// What stands for a field in a template.
pub open spec fn placeholder(key: Seq<char>) -> Seq<char> {
    "{{"@ + key + "}}"@
}

/// A value as it stands in a template of either type.
pub open spec fn encoded(value: Seq<char>, json: bool) -> Seq<char> {
    if json {
        encode::json_escaped(value)
    } else {
        encode::form_encoded(value)
    }
}

/// A template with its fields filled in, one after the other.
pub open spec fn filled(
    template: Seq<char>,
    fields: Seq<(Seq<char>, Seq<char>)>,
    json: bool,
) -> Seq<char>
    decreases fields.len(),
{
    if fields.len() == 0 {
        template
    } else {
        let (key, value) = fields.last();
        text::replaced(
            filled(template, fields.drop_last(), json),
            placeholder(key),
            encoded(value, json),
        )
    }
}

/// The body and the content type of a notification.
pub open spec fn rendered(template: TemplateView, n: NotificationView) -> (Seq<char>, Seq<char>) {
    match template {
        TemplateView::Json(t) => (filled(t, fields_of(n), true), "application/json"@),
        TemplateView::Form(t) => (
            filled(t, fields_of(n), false),
            "application/x-www-form-urlencoded"@,
        ),
    }
}

fn fill(template: &str, fields: &Vec<Field>, json: bool) -> (r: String)
    ensures
        r@ == filled(template@, field_views(fields@), json),
{
    let ghost all = field_views(fields@);
    proof {
        reveal_strlit("{{");
    }
    let mut out = template.to_owned();
    let mut i: usize = 0;
    assert(all.take(0) =~= seq![]);
    while i < fields.len()
        invariant
            i <= fields@.len(),
            all == field_views(fields@),
            "{{"@.len() == 2,
            out@ == filled(template@, all.take(i as int), json),
        decreases fields@.len() - i,
    {
        let key = text::join3("{{", fields[i].key, "}}");
        let value = if json {
            encode::json_escape(&fields[i].value)
        } else {
            encode::url_encode(&fields[i].value)
        };
        assert(all.take(i + 1).drop_last() =~= all.take(i as int));
        out = text::replace_text(&out, &key, &value);
        i = i + 1;
    }
    assert(all.take(i as int) =~= all);
    out
}

/// Renders a notification: its body and content type.
pub fn render(template: &TemplateType, notification: &Notification) -> (r: (String, &'static str))
    ensures
        (r.0@, r.1@) == rendered(template@, notification@),
{
    let fields = notification_to_fields(notification);
    match template {
        TemplateType::Json(t) => (fill(t, &fields, true), "application/json"),
        TemplateType::Form(t) => (fill(t, &fields, false), "application/x-www-form-urlencoded"),
    }
}

/// The built-in failure template of the same type as a template.
pub open spec fn failed_template(template: TemplateView) -> TemplateView {
    match template {
        TemplateView::Json(_) => TemplateView::Json(FAILED_JSON@),
        TemplateView::Form(_) => TemplateView::Form(FAILED_FORM@),
    }
}

/// Renders a failure with the built-in template of the same type as the configured one.
pub fn render_failed(template_type: &TemplateType, failed: &FailedData) -> (r: (
    String,
    &'static str,
))
    ensures
        (r.0@, r.1@) == rendered(
            failed_template(template_type@),
            NotificationView::Failed(failed@),
        ),
{
    let template = match template_type {
        TemplateType::Json(_) => TemplateType::Json(FAILED_JSON.to_owned()),
        TemplateType::Form(_) => TemplateType::Form(FAILED_FORM.to_owned()),
    };
    let notification = Notification::Failed(failed.clone());
    render(&template, &notification)
}

/// The body and the content type that a webhook is sent: the main template for episodes, the
/// failure template for failures, the built-in one where there is none.
pub open spec fn webhook_message(cfg: WebhookView, n: NotificationView) -> (Seq<char>, Seq<char>) {
    match n {
        NotificationView::EpisodeDownloaded(_) => rendered(cfg.template, n),
        NotificationView::Failed(_) => match cfg.error_template {
            Some(t) => rendered(t, n),
            None => rendered(failed_template(cfg.template), n),
        },
    }
}

/// Renders what a webhook is sent.
pub fn compose(cfg: &WebhookConfig, notification: &Notification) -> (r: (String, &'static str))
    ensures
        (r.0@, r.1@) == webhook_message(cfg@, notification@),
{
    match notification {
        Notification::EpisodeDownloaded(_) => render(&cfg.template, notification),
        Notification::Failed(f) => match &cfg.error_template {
            Some(t) => render(t, notification),
            None => render_failed(&cfg.template, f),
        },
    }
}

/// The line that is logged for a notification where no webhook is configured.
pub open spec fn log_line_of(n: NotificationView) -> Seq<char> {
    match n {
        NotificationView::EpisodeDownloaded(d) => "[notify] "@ + d.anime_name + " 第"@
            + text::decimal(d.episode as nat) + "集 下载完成"@,
        NotificationView::Failed(f) => "[notify] 失败: "@ + f.title + " - "@ + f.message,
    }
}

/// The line that is logged for a notification where no webhook is configured.
pub fn log_line(notification: &Notification) -> (r: String)
    ensures
        r@ == log_line_of(notification@),
{
    match notification {
        Notification::EpisodeDownloaded(d) => {
            let mut out = "[notify] ".to_owned();
            out.append(&d.anime_name);
            out.append(" 第");
            out.append(&text::decimal_text(d.episode as u64));
            out.append("集 下载完成");
            out
        },
        Notification::Failed(f) => {
            let mut out = "[notify] 失败: ".to_owned();
            out.append(&f.title);
            out.append(" - ");
            out.append(&f.message);
            out
        },
    }
}

// ── Laws ──

/// A text without any placeholder of a notification's fields is rendered as it stands.
pub proof fn law_text_without_placeholders_is_kept(
    template: Seq<char>,
    fields: Seq<(Seq<char>, Seq<char>)>,
    json: bool,
)
    requires
        forall|i: int|
            0 <= i < fields.len() ==> !text::contains(
                template,
                placeholder((#[trigger] fields[i]).0),
            ),
    ensures
        filled(template, fields, json) == template,
    decreases fields.len(),
{
    if fields.len() > 0 {
        let init = fields.drop_last();
        assert forall|i: int| 0 <= i < init.len() implies !text::contains(
            template,
            placeholder((#[trigger] init[i]).0),
        ) by {
            assert(init[i] == fields[i]);
        }
        law_text_without_placeholders_is_kept(template, init, json);
        let (key, value) = fields.last();
        assert(fields[fields.len() - 1] == fields.last());
        lemma_nothing_to_replace(template, placeholder(key), encoded(value, json));
    }
}

proof fn lemma_nothing_to_replace(s: Seq<char>, part: Seq<char>, by: Seq<char>)
    requires
        !text::contains(s, part),
    ensures
        text::replaced(s, part, by) == s,
    decreases s.len(),
{
    if part.len() > 0 && s.len() >= part.len() {
        if part.is_prefix_of(s) {
            assert(text::occurs_at(s, part, 0));
        }
        let rest = s.skip(1);
        assert(!text::contains(rest, part)) by {
            if text::contains(rest, part) {
                let i = choose|i: int| text::occurs_at(rest, part, i);
                assert(s.subrange(i + 1, i + 1 + part.len()) =~= rest.subrange(
                    i,
                    i + part.len(),
                ));
                assert(text::occurs_at(s, part, i + 1));
            }
        }
        lemma_nothing_to_replace(rest, part, by);
        assert(seq![s[0]] + rest =~= s);
    }
}

// ── Failures leave no placeholder ──

/// No two opening braces stand next to each other.
#[verifier::opaque]
pub open spec fn no_braces(s: Seq<char>) -> bool {
    forall|i: int| 0 <= i && i + 1 < s.len() ==> !(#[trigger] s[i] == '{' && s[i + 1] == '{')
}

/// No two opening braces stand next to each other in a part of a text.
spec fn no_braces_in(s: Seq<char>, from: int, to: int) -> bool
    decreases to - from,
{
    to - from < 2 || (!(s[to - 1] == '{' && s[to - 2] == '{') && no_braces_in(s, from, to - 1))
}

/// A template with the title at one position, the message at a later one, and no other
/// placeholder.
spec fn fits(t: Seq<char>, title: int, message: int) -> bool {
    &&& 0 < title && title + 9 < message && message + 11 <= t.len()
    &&& t.subrange(title, title + 9) == placeholder("title"@)
    &&& t.subrange(message, message + 11) == placeholder("message"@)
    &&& no_braces_in(t, 0, title) && t[title - 1] != '{'
    &&& no_braces_in(t, title + 9, message) && t[title + 9] != '{' && t[message - 1] != '{'
    &&& no_braces_in(t, message + 11, t.len() as int)
    &&& message + 11 < t.len() ==> t[message + 11] != '{'
}

proof fn lemma_part(s: Seq<char>, from: int, to: int)
    requires
        0 <= from <= to <= s.len(),
        no_braces_in(s, from, to),
    ensures
        no_braces(s.subrange(from, to)),
    decreases to - from,
{
    reveal(no_braces);
    if to - from >= 2 {
        lemma_part(s, from, to - 1);
        let part = s.subrange(from, to);
        let init = s.subrange(from, to - 1);
        assert forall|i: int| 0 <= i && i + 1 < part.len() implies !(#[trigger] part[i] == '{'
            && part[i + 1] == '{') by {
            if i + 1 < init.len() {
                assert(init[i] == part[i]);
            }
        }
    }
}

/// A placeholder does not begin in a text without two opening braces that does not end in one.
proof fn lemma_pass_over(a: Seq<char>, rest: Seq<char>, part: Seq<char>, by: Seq<char>)
    requires
        no_braces(a),
        a.len() > 0 ==> a.last() != '{',
        part.len() >= 2,
        part[0] == '{' && part[1] == '{',
    ensures
        text::replaced(a + rest, part, by) == a + text::replaced(rest, part, by),
    decreases a.len(),
{
    reveal(no_braces);
    let s = a + rest;
    if a.len() == 0 {
        assert(s =~= rest);
        assert(a + text::replaced(rest, part, by) =~= text::replaced(rest, part, by));
    } else if s.len() < part.len() {
    } else {
        let b = a.skip(1);
        if part.is_prefix_of(s) {
            assert(s.subrange(0, part.len() as int) == part);
            assert(s[0] == part[0] && s[1] == part[1]);
            assert(a[0] == s[0]);
            if a.len() > 1 {
                assert(a[1] == s[1]);
            }
        }
        assert forall|i: int| 0 <= i && i + 1 < b.len() implies !(#[trigger] b[i] == '{' && b[i + 1]
            == '{') by {
            assert(b[i] == a[i + 1] && b[i + 1] == a[i + 2]);
        }
        lemma_pass_over(b, rest, part, by);
        assert(s.skip(1) =~= b + rest);
        assert(seq![a[0]] + (b + text::replaced(rest, part, by)) =~= a + text::replaced(
            rest,
            part,
            by,
        ));
    }
}

/// Another placeholder is passed over.
proof fn lemma_pass_placeholder(
    other: Seq<char>,
    rest: Seq<char>,
    part: Seq<char>,
    by: Seq<char>,
)
    requires
        other.len() > 2,
        other[0] == '{',
        no_braces(other.skip(1)),
        other.last() != '{',
        part.len() >= 2,
        part[0] == '{' && part[1] == '{',
        !part.is_prefix_of(other + rest),
    ensures
        text::replaced(other + rest, part, by) == other + text::replaced(rest, part, by),
{
    let s = other + rest;
    let tail = other.skip(1);
    lemma_pass_over(tail, rest, part, by);
    assert(s.skip(1) =~= tail + rest);
    if s.len() >= part.len() {
        assert(seq![s[0]] + (tail + text::replaced(rest, part, by)) =~= other + text::replaced(
            rest,
            part,
            by,
        ));
    } else {
        assert(rest.len() < part.len());
    }
}

/// A placeholder is replaced.
proof fn lemma_replace_first(rest: Seq<char>, part: Seq<char>, by: Seq<char>)
    requires
        part.len() > 0,
    ensures
        text::replaced(part + rest, part, by) == by + text::replaced(rest, part, by),
{
    assert((part + rest).skip(part.len() as int) =~= rest);
    assert(part.is_prefix_of(part + rest)) by {
        assert((part + rest).subrange(0, part.len() as int) =~= part);
    }
}

/// The placeholders of a failure's fields, character by character.
proof fn lemma_placeholders()
    ensures
        placeholder("type"@) == seq!['{', '{', 't', 'y', 'p', 'e', '}', '}'],
        placeholder("context"@) == seq!['{', '{', 'c', 'o', 'n', 't', 'e', 'x', 't', '}', '}'],
        placeholder("error"@) == seq!['{', '{', 'e', 'r', 'r', 'o', 'r', '}', '}'],
        placeholder("title"@) == seq!['{', '{', 't', 'i', 't', 'l', 'e', '}', '}'],
        placeholder("message"@) == seq!['{', '{', 'm', 'e', 's', 's', 'a', 'g', 'e', '}', '}'],
{
    reveal_strlit("{{");
    reveal_strlit("}}");
    reveal_strlit("type");
    reveal_strlit("context");
    reveal_strlit("error");
    reveal_strlit("title");
    reveal_strlit("message");
    assert(placeholder("type"@) =~= seq!['{', '{', 't', 'y', 'p', 'e', '}', '}']);
    assert(placeholder("context"@) =~= seq![
        '{',
        '{',
        'c',
        'o',
        'n',
        't',
        'e',
        'x',
        't',
        '}',
        '}',
    ]);
    assert(placeholder("error"@) =~= seq!['{', '{', 'e', 'r', 'r', 'o', 'r', '}', '}']);
    assert(placeholder("title"@) =~= seq!['{', '{', 't', 'i', 't', 'l', 'e', '}', '}']);
    assert(placeholder("message"@) =~= seq![
        '{',
        '{',
        'm',
        'e',
        's',
        's',
        'a',
        'g',
        'e',
        '}',
        '}',
    ]);
}

proof fn lemma_placeholder_braces()
    ensures
        no_braces(placeholder("title"@).skip(1)),
        no_braces(placeholder("message"@).skip(1)),
{
    reveal(no_braces);
    lemma_placeholders();
}

/// A placeholder that is not in a fitting template changes nothing.
proof fn lemma_absent(
    a: Seq<char>,
    b: Seq<char>,
    c: Seq<char>,
    part: Seq<char>,
    by: Seq<char>,
)
    requires
        no_braces(a) && a.len() > 0 && a.last() != '{',
        no_braces(b) && b.len() > 0 && b.last() != '{',
        no_braces(c),
        part.len() > 2,
        part[0] == '{' && part[1] == '{',
        part[2] == 'c' || part[2] == 'e' || (part[2] == 't' && part.len() > 3 && part[3] == 'y'),
    ensures
        ({
            let t = a + (placeholder("title"@) + (b + (placeholder("message"@) + c)));
            text::replaced(t, part, by) == t
        }),
{
    lemma_placeholder_braces();
    lemma_placeholders();
    let first = placeholder("title"@);
    let second = placeholder("message"@);
    let end = second + c;
    let middle = b + end;
    let start = first + middle;
    if part.is_prefix_of(end) {
        assert(end.subrange(0, part.len() as int)[2] == part[2]);
    }
    if part.is_prefix_of(start) {
        let head = start.subrange(0, part.len() as int);
        assert(head[2] == part[2]);
        assert(part.len() > 3 ==> head[3] == part[3]);
    }
    lemma_pass_over(a, start, part, by);
    lemma_pass_placeholder(first, middle, part, by);
    lemma_pass_over(b, end, part, by);
    lemma_pass_placeholder(second, c, part, by);
    lemma_absent_in(c, part, by);
}

/// Two texts without two opening braces that do not meet in two of them.
proof fn lemma_joined(x: Seq<char>, y: Seq<char>)
    requires
        no_braces(x),
        no_braces(y),
        x.len() > 0 && y.len() > 0 ==> x.last() != '{' || y[0] != '{',
    ensures
        no_braces(x + y),
{
    reveal(no_braces);
    let s = x + y;
    assert forall|i: int| 0 <= i && i + 1 < s.len() implies !(#[trigger] s[i] == '{' && s[i + 1]
        == '{') by {
        if i + 1 < x.len() {
            assert(s[i] == x[i] && s[i + 1] == x[i + 1]);
        } else if i >= x.len() {
            assert(s[i] == y[i - x.len()] && s[i + 1] == y[i - x.len() + 1]);
        } else {
            assert(s[i] == x.last() && s[i + 1] == y[0]);
        }
    }
}

proof fn lemma_json_char(c: char)
    ensures
        ({
            let r = encode::json_char(c);
            &&& r.len() > 0 && no_braces(r)
            &&& r.last() == '{' <==> c == '{'
            &&& r[0] == '{' <==> c == '{'
        }),
{
    reveal(no_braces);
    if (c as int) < 32 {
        assert(0 <= c as int / 16 <= 1);
        assert(0 <= c as int % 16 < 16);
        assert(encode::lower_hex(c as int / 16) as int <= 102);
        assert(encode::lower_hex(c as int % 16) as int <= 102);
    }
}

proof fn lemma_json_braces(s: Seq<char>)
    requires
        no_braces(s),
    ensures
        no_braces(encode::json_escaped(s)),
        s.len() > 0 ==> encode::json_escaped(s).len() > 0 && (encode::json_escaped(s).last() == '{'
            <==> s.last() == '{'),
    decreases s.len(),
{
    reveal(no_braces);
    if s.len() > 0 {
        let init = s.drop_last();
        let c = s.last();
        assert forall|i: int| 0 <= i && i + 1 < init.len() implies !(#[trigger] init[i] == '{'
            && init[i + 1] == '{') by {
            assert(init[i] == s[i] && init[i + 1] == s[i + 1]);
        }
        lemma_json_braces(init);
        let last = encode::json_char(c);
        lemma_json_char(c);
        if init.len() > 0 {
            assert(init.last() == s[s.len() - 2]);
        }
        lemma_joined(encode::json_escaped(init), last);
    }
}

proof fn lemma_encoded_braces(s: Seq<char>, json: bool)
    requires
        no_braces(s),
    ensures
        no_braces(encoded(s, json)),
{
    reveal(no_braces);
    if json {
        lemma_json_braces(s);
    } else {
        let e = encode::form_encoded(s);
        assert forall|i: int| 0 <= i && i + 1 < e.len() implies !(#[trigger] e[i] == '{' && e[i + 1]
            == '{') by {
            encode::law_form_value_is_safe(s, i);
        }
    }
}

/// Putting the title into a template.
proof fn lemma_title(a: Seq<char>, b: Seq<char>, c: Seq<char>, v: Seq<char>)
    requires
        no_braces(a) && a.len() > 0 && a.last() != '{',
        no_braces(b) && b.len() > 0 && b.last() != '{',
        no_braces(c),
    ensures
        text::replaced(
            a + (placeholder("title"@) + (b + (placeholder("message"@) + c))),
            placeholder("title"@),
            v,
        ) == a + (v + (b + (placeholder("message"@) + c))),
{
    lemma_placeholder_braces();
    lemma_placeholders();
    let first = placeholder("title"@);
    let second = placeholder("message"@);
    let end = second + c;
    lemma_pass_over(a, first + (b + end), first, v);
    lemma_replace_first(b + end, first, v);
    lemma_pass_over(b, end, first, v);
    if first.is_prefix_of(end) {
        assert(end.subrange(0, first.len() as int)[2] == first[2]);
    }
    lemma_pass_placeholder(second, c, first, v);
    lemma_absent_in(c, first, v);
}

/// Putting the message into a template.
proof fn lemma_message(front: Seq<char>, c: Seq<char>, w: Seq<char>)
    requires
        no_braces(front) && front.len() > 0 && front.last() != '{',
        no_braces(c),
    ensures
        text::replaced(front + (placeholder("message"@) + c), placeholder("message"@), w) == front
            + (w + c),
{
    lemma_placeholders();
    let part = placeholder("message"@);
    lemma_pass_over(front, part + c, part, w);
    lemma_replace_first(c, part, w);
    lemma_absent_in(c, part, w);
}

/// What a failure is told as holds no two opening braces if its title and message do not.
proof fn lemma_told(title: Seq<char>, message: Seq<char>)
    requires
        no_braces(title),
        no_braces(message),
    ensures
        no_braces("[失败] "@ + title + ": "@ + message),
{
    reveal_strlit("[失败] ");
    reveal_strlit(": ");
    assert(no_braces("[失败] "@) && no_braces(": "@)) by {
        reveal(no_braces);
    }
    lemma_joined("[失败] "@, title);
    lemma_joined("[失败] "@ + title, ": "@);
    lemma_joined("[失败] "@ + title + ": "@, message);
}

/// Filling in the fields of a failure one after the other.
proof fn lemma_failure_fields(t: Seq<char>, f: FailedView, json: bool)
    ensures
        ({
            let told = "[失败] "@ + f.title + ": "@ + f.message;
            let one = text::replaced(t, placeholder("type"@), encoded("failed"@, json));
            let two = text::replaced(one, placeholder("context"@), encoded(f.title, json));
            let three = text::replaced(two, placeholder("error"@), encoded(f.message, json));
            let four = text::replaced(three, placeholder("title"@), encoded(f.title, json));
            filled(t, fields_of(NotificationView::Failed(f)), json) == text::replaced(
                four,
                placeholder("message"@),
                encoded(told, json),
            )
        }),
{
    let fields = fields_of(NotificationView::Failed(f));
    lemma_fill_one(t, fields, 1, json);
    lemma_fill_one(t, fields, 2, json);
    lemma_fill_one(t, fields, 3, json);
    lemma_fill_one(t, fields, 4, json);
    lemma_fill_one(t, fields, 5, json);
    assert(filled(t, fields.take(0), json) == t);
    assert(fields.take(5) =~= fields);
}

proof fn lemma_fill_one(
    t: Seq<char>,
    fields: Seq<(Seq<char>, Seq<char>)>,
    n: int,
    json: bool,
)
    requires
        0 < n <= fields.len(),
    ensures
        filled(t, fields.take(n), json) == text::replaced(
            filled(t, fields.take(n - 1), json),
            placeholder(fields[n - 1].0),
            encoded(fields[n - 1].1, json),
        ),
{
    assert(fields.take(n).drop_last() =~= fields.take(n - 1));
    assert(fields.take(n).last() == fields[n - 1]);
}

/// A fitting template filled with the fields of a failure.
proof fn lemma_filled(t: Seq<char>, title: int, message: int, f: FailedView, json: bool)
    requires
        fits(t, title, message),
        no_braces(f.title),
        no_braces(f.message),
    ensures
        no_braces(filled(t, fields_of(NotificationView::Failed(f)), json)),
{
    let a = t.subrange(0, title);
    let b = t.subrange(title + 9, message);
    let c = t.subrange(message + 11, t.len() as int);
    lemma_part(t, 0, title);
    lemma_part(t, title + 9, message);
    lemma_part(t, message + 11, t.len() as int);
    assert(t =~= a + (placeholder("title"@) + (b + (placeholder("message"@) + c))));
    let told = "[失败] "@ + f.title + ": "@ + f.message;
    let v = encoded(f.title, json);
    let w = encoded(told, json);
    lemma_told(f.title, f.message);
    lemma_encoded_braces(f.title, json);
    lemma_encoded_braces(told, json);
    assert(a.last() == t[title - 1]);
    assert(b[0] == t[title + 9] && b.last() == t[message - 1]);
    lemma_shaped(a, b, c, v, w, f, json);
}

proof fn lemma_shaped(
    a: Seq<char>,
    b: Seq<char>,
    c: Seq<char>,
    v: Seq<char>,
    w: Seq<char>,
    f: FailedView,
    json: bool,
)
    requires
        no_braces(a) && a.len() > 0 && a.last() != '{',
        no_braces(b) && b.len() > 0 && b.last() != '{' && b[0] != '{',
        no_braces(c) && (c.len() > 0 ==> c[0] != '{'),
        no_braces(v),
        no_braces(w),
        v == encoded(f.title, json),
        w == encoded("[失败] "@ + f.title + ": "@ + f.message, json),
    ensures
        no_braces(
            filled(
                a + (placeholder("title"@) + (b + (placeholder("message"@) + c))),
                fields_of(NotificationView::Failed(f)),
                json,
            ),
        ),
{
    let t = a + (placeholder("title"@) + (b + (placeholder("message"@) + c)));
    lemma_failure_fields(t, f, json);
    lemma_key_starts();
    lemma_absent(a, b, c, placeholder("type"@), encoded("failed"@, json));
    lemma_absent(a, b, c, placeholder("context"@), encoded(f.title, json));
    lemma_absent(a, b, c, placeholder("error"@), encoded(f.message, json));
    lemma_title(a, b, c, v);
    let front = a + v + b;
    assert(a + (v + (b + (placeholder("message"@) + c))) =~= front + (placeholder("message"@) + c));
    lemma_joined(a, v);
    lemma_joined(a + v, b);
    lemma_message(front, c, w);
    lemma_joined(w, c);
    lemma_joined(front, w + c);
}

/// How the placeholders that a fitting template lacks begin.
proof fn lemma_key_starts()
    ensures
        ({
            let p = placeholder("type"@);
            p.len() > 3 && p[0] == '{' && p[1] == '{' && p[2] == 't' && p[3] == 'y'
        }),
        ({
            let p = placeholder("context"@);
            p.len() > 2 && p[0] == '{' && p[1] == '{' && p[2] == 'c'
        }),
        ({
            let p = placeholder("error"@);
            p.len() > 2 && p[0] == '{' && p[1] == '{' && p[2] == 'e'
        }),
{
    lemma_placeholders();
}

proof fn lemma_absent_in(c: Seq<char>, part: Seq<char>, by: Seq<char>)
    requires
        no_braces(c),
        part.len() >= 2,
        part[0] == '{' && part[1] == '{',
    ensures
        text::replaced(c, part, by) == c,
{
    reveal(no_braces);
    assert(!text::contains(c, part)) by {
        if text::contains(c, part) {
            let i = choose|i: int| text::occurs_at(c, part, i);
            assert(c.subrange(i, i + part.len())[0] == c[i]);
            assert(c.subrange(i, i + part.len())[1] == c[i + 1]);
        }
    }
    lemma_nothing_to_replace(c, part, by);
}

proof fn lemma_bark_fits()
    ensures
        fits(BARK_ERROR@, 13, 32),
{
    lemma_placeholders();
    reveal_strlit(
        r#"{"title":"⚠️ {{title}}","body":"{{message}}","icon":"https://cdn.jsdelivr.net/gh/twitter/twemoji@14.0.2/assets/72x72/26a0.png","group":"bangumi-rss-errors"}"#,
    );
    let t = BARK_ERROR@;
    assert(t.subrange(13, 22) =~= placeholder("title"@));
    assert(t.subrange(32, 43) =~= placeholder("message"@));
    assert(no_braces_in(t, 0, 13)) by {
        reveal_with_fuel(no_braces_in, 15);
    }
    assert(no_braces_in(t, 22, 32)) by {
        reveal_with_fuel(no_braces_in, 15);
    }
    assert(no_braces_in(t, 43, 80)) by {
        reveal_with_fuel(no_braces_in, 40);
    }
    assert(no_braces_in(t, 43, 120)) by {
        reveal_with_fuel(no_braces_in, 45);
    }
    assert(no_braces_in(t, 43, 156)) by {
        reveal_with_fuel(no_braces_in, 45);
    }
}

proof fn lemma_gotify_fits()
    ensures
        fits(GOTIFY_ERROR@, 10, 32),
{
    lemma_placeholders();
    reveal_strlit(r#"{"title":"{{title}}","message":"{{message}}","priority":8}"#);
    let t = GOTIFY_ERROR@;
    assert(t.subrange(10, 19) =~= placeholder("title"@));
    assert(t.subrange(32, 43) =~= placeholder("message"@));
    reveal_with_fuel(no_braces_in, 30);
}

proof fn lemma_serverchan_fits()
    ensures
        fits(SERVERCHAN_ERROR@, 6, 23),
{
    lemma_placeholders();
    reveal_strlit("title={{title}}&desp=❌ {{message}}");
    let t = SERVERCHAN_ERROR@;
    assert(t.subrange(6, 15) =~= placeholder("title"@));
    assert(t.subrange(23, 34) =~= placeholder("message"@));
    reveal_with_fuel(no_braces_in, 20);
}

proof fn lemma_no_braces(s: Seq<char>)
    ensures
        no_braces(s) <==> !text::contains(s, "{{"@),
{
    reveal(no_braces);
    reveal_strlit("{{");
    let two = "{{"@;
    if text::contains(s, two) {
        let i = choose|i: int| text::occurs_at(s, two, i);
        assert(s.subrange(i, i + 2)[0] == s[i]);
        assert(s.subrange(i, i + 2)[1] == s[i + 1]);
    }
    if !no_braces(s) {
        let i = choose|i: int|
            0 <= i && i + 1 < s.len() && #[trigger] s[i] == '{' && s[i + 1] == '{';
        assert(s.subrange(i, i + 2) =~= two);
        assert(text::occurs_at(s, two, i));
    }
}

/// The failure template of a preset is of the same type as its template: a form for one preset,
/// JSON for the others. It has no placeholder but those that a failure fills: rendered for a failure
/// whose title and message hold no `{{`, it holds no `{{` any more.
pub proof fn law_failures_leave_no_placeholder(preset: Preset, f: FailedView)
    requires
        !text::contains(f.title, "{{"@),
        !text::contains(f.message, "{{"@),
    ensures
        preset_error(preset) is Form <==> preset == Preset::Serverchan,
        preset_error(preset) is Form <==> preset_template(preset) is Form,
        !text::contains(
            rendered(preset_error(preset), NotificationView::Failed(f)).0,
            "{{"@,
        ),
{
    lemma_no_braces(f.title);
    lemma_no_braces(f.message);
    lemma_no_braces(rendered(preset_error(preset), NotificationView::Failed(f)).0);
    match preset {
        Preset::Bark => {
            lemma_bark_fits();
            lemma_filled(BARK_ERROR@, 13, 32, f, true);
        },
        Preset::Gotify => {
            lemma_gotify_fits();
            lemma_filled(GOTIFY_ERROR@, 10, 32, f, true);
        },
        Preset::Serverchan => {
            lemma_serverchan_fits();
            lemma_filled(SERVERCHAN_ERROR@, 6, 23, f, false);
        },
    }
}

// ── What a template says ──

/// A text without braces.
pub open spec fn is_plain(s: Seq<char>) -> bool {
    forall|i: int| 0 <= i < s.len() ==> #[trigger] s[i] != '{' && s[i] != '}'
}

/// The keys of fields have no braces and are all different.
pub open spec fn are_keys(fields: Seq<(Seq<char>, Seq<char>)>) -> bool {
    &&& forall|i: int| 0 <= i < fields.len() ==> is_plain((#[trigger] fields[i]).0)
    &&& forall|i: int, j: int|
        0 <= i < j < fields.len() ==> (#[trigger] fields[i]).0 != (#[trigger] fields[j]).0
}

proof fn lemma_placeholder_shape(key: Seq<char>)
    requires
        is_plain(key),
    ensures
        placeholder(key).len() == key.len() + 4,
        placeholder(key)[0] == '{',
        placeholder(key)[1] == '{',
        forall|i: int| 0 <= i < key.len() ==> placeholder(key)[i + 2] == #[trigger] key[i],
        placeholder(key)[key.len() as int + 2] == '}',
        placeholder(key).last() == '}',
        no_braces(placeholder(key).skip(1)),
{
    reveal_strlit("{{");
    reveal_strlit("}}");
    reveal(no_braces);
    let p = placeholder(key);
    let n = key.len() as int;
    assert forall|i: int| 0 <= i < key.len() implies p[i + 2] == #[trigger] key[i] by {
    }
    let t = p.skip(1);
    assert forall|i: int| 0 <= i && i + 1 < t.len() implies !(#[trigger] t[i] == '{' && t[i + 1]
        == '{') by {
        if i + 1 < n + 1 {
            assert(t[i + 1] == key[i]);
        }
    }
}

proof fn lemma_other_placeholder(key: Seq<char>, other: Seq<char>, rest: Seq<char>)
    requires
        is_plain(key),
        is_plain(other),
        key != other,
    ensures
        !placeholder(other).is_prefix_of(placeholder(key) + rest),
{
    lemma_placeholder_shape(key);
    lemma_placeholder_shape(other);
    let p = placeholder(other);
    let s = placeholder(key) + rest;
    if p.is_prefix_of(s) {
        let head = s.subrange(0, p.len() as int);
        assert(head == p);
        assert forall|i: int| 0 <= i < p.len() implies p[i] == #[trigger] s[i] by {
            assert(head[i] == s[i]);
        }
        let n = key.len() as int;
        let m = other.len() as int;
        if m < n {
            assert(p[m + 2] == s[m + 2]);
            assert(placeholder(key)[m + 2] == key[m]);
        } else if n < m {
            assert(p[n + 2] == s[n + 2]);
            assert(p[n + 2] == other[n]);
        } else {
            assert forall|i: int| 0 <= i < n implies key[i] == other[i] by {
                assert(p[i + 2] == s[i + 2]);
                assert(p[i + 2] == other[i]);
                assert(placeholder(key)[i + 2] == key[i]);
            }
            assert(key =~= other);
        }
    }
}

proof fn lemma_fill_upto(
    fields: Seq<(Seq<char>, Seq<char>)>,
    at: int,
    front: Seq<char>,
    back: Seq<char>,
    json: bool,
    k: int,
)
    requires
        are_keys(fields),
        0 <= at < fields.len(),
        0 <= k <= fields.len(),
        no_braces(front) && (front.len() > 0 ==> front.last() != '{'),
        no_braces(back) && (back.len() > 0 ==> back[0] != '{'),
        no_braces(fields[at].1),
    ensures
        filled(front + (placeholder(fields[at].0) + back), fields.take(k), json) == (if k <= at {
            front + (placeholder(fields[at].0) + back)
        } else {
            front + (encoded(fields[at].1, json) + back)
        }),
    decreases k,
{
    let (key, value) = fields[at];
    let own = placeholder(key);
    let t = front + (own + back);
    let v = encoded(value, json);
    let done = front + (v + back);
    lemma_placeholder_shape(key);
    if k > 0 {
        let some = fields.take(k);
        assert(some.drop_last() =~= fields.take(k - 1));
        assert(some.last() == fields[k - 1]);
        lemma_fill_upto(fields, at, front, back, json, k - 1);
        let (other, text) = fields[k - 1];
        let part = placeholder(other);
        let by = encoded(text, json);
        lemma_placeholder_shape(other);
        lemma_encoded_braces(value, json);
        lemma_joined(v, back);
        lemma_joined(front, v + back);
        if k - 1 < at {
            assert(fields[k - 1].0 != fields[at].0);
            lemma_other_placeholder(key, other, back);
            lemma_pass_over(front, own + back, part, by);
            lemma_pass_placeholder(own, back, part, by);
            lemma_absent_in(back, part, by);
        } else if k - 1 == at {
            lemma_pass_over(front, own + back, own, v);
            lemma_replace_first(back, own, v);
            lemma_absent_in(back, own, v);
        } else {
            lemma_absent_in(done, part, by);
        }
    }
}

proof fn lemma_keys(n: NotificationView)
    ensures
        are_keys(fields_of(n)),
{
    reveal_strlit("type");
    reveal_strlit("anime_name");
    reveal_strlit("season");
    reveal_strlit("episode");
    reveal_strlit("library_path");
    reveal_strlit("name_cn");
    reveal_strlit("name_original");
    reveal_strlit("summary");
    reveal_strlit("rating");
    reveal_strlit("image_url");
    reveal_strlit("eps_count");
    reveal_strlit("message");
    reveal_strlit("context");
    reveal_strlit("error");
    reveal_strlit("title");
    let f = fields_of(n);
    assert forall|i: int| 0 <= i < f.len() implies is_plain((#[trigger] f[i]).0) by {
    }
    match n {
        NotificationView::EpisodeDownloaded(d) => {
            assert(f[0].0.len() == 4 && f[1].0.len() == 10 && f[2].0.len() == 6 && f[3].0.len()
                == 7 && f[4].0.len() == 12 && f[5].0.len() == 7 && f[6].0.len() == 13
                && f[7].0.len() == 7 && f[8].0.len() == 6 && f[9].0.len() == 9 && f[10].0.len()
                == 9 && f[11].0.len() == 7);
            assert(f[3].0[0] == 'e' && f[5].0[0] == 'n' && f[7].0[0] == 's' && f[11].0[0] == 'm');
            assert(f[2].0[0] == 's' && f[8].0[0] == 'r');
            assert(f[9].0[0] == 'i' && f[10].0[0] == 'e');
        },
        NotificationView::Failed(e) => {
            assert(f[0].0.len() == 4 && f[1].0.len() == 7 && f[2].0.len() == 5 && f[3].0.len() == 5
                && f[4].0.len() == 7);
            assert(f[1].0[0] == 'c' && f[4].0[0] == 'm' && f[2].0[0] == 'e' && f[3].0[0] == 't');
        },
    }
}

/// The placeholder of a field is filled with the value of that field, escaped as the template asks
/// for, and what stands around it is kept.
pub proof fn law_placeholder_is_filled_with_its_value(
    n: NotificationView,
    key: Seq<char>,
    value: Seq<char>,
    front: Seq<char>,
    back: Seq<char>,
)
    requires
        fields_of(n).contains((key, value)),
        !text::contains(front, "{{"@),
        front.len() > 0 ==> front.last() != '{',
        !text::contains(back, "{{"@),
        back.len() > 0 ==> back[0] != '{',
        !text::contains(value, "{{"@),
    ensures
        rendered(TemplateView::Json(front + ("{{"@ + key + "}}"@ + back)), n) == (
            front + (encode::json_escaped(value) + back),
            "application/json"@,
        ),
        rendered(TemplateView::Form(front + ("{{"@ + key + "}}"@ + back)), n) == (
            front + (encode::form_encoded(value) + back),
            "application/x-www-form-urlencoded"@,
        ),
{
    let fields = fields_of(n);
    let at = fields.index_of((key, value));
    lemma_keys(n);
    lemma_no_braces(front);
    lemma_no_braces(back);
    lemma_no_braces(value);
    assert(fields[at] == (key, value));
    let all = fields.len() as int;
    assert(fields.take(all) =~= fields);
    lemma_fill_upto(fields, at, front, back, true, all);
    lemma_fill_upto(fields, at, front, back, false, all);
    assert("{{"@ + key + "}}"@ + back == placeholder(key) + back);
}

/// The fields of an episode say which one it is, where it went and what is known of its anime; what
/// is not known is left empty.
pub proof fn law_fields_say_what_was_downloaded(d: EpisodeDownloadedView)
    ensures
        ({
            let fields = fields_of(NotificationView::EpisodeDownloaded(d));
            &&& fields.contains(("type"@, "episode_downloaded"@))
            &&& fields.contains(("anime_name"@, d.anime_name))
            &&& fields.contains(("season"@, text::decimal(d.season as nat)))
            &&& fields.contains(("episode"@, text::decimal(d.episode as nat)))
            &&& fields.contains(("library_path"@, d.library_path))
            &&& d.name_cn matches Some(t) ==> fields.contains(("name_cn"@, t))
            &&& d.name_original matches Some(t) ==> fields.contains(("name_original"@, t))
            &&& d.summary matches Some(t) ==> fields.contains(("summary"@, t))
            &&& d.summary is None ==> fields.contains(("summary"@, Seq::empty()))
            &&& d.rating matches Some(t) ==> fields.contains(("rating"@, t))
            &&& d.image_url matches Some(t) ==> fields.contains(("image_url"@, t))
            &&& d.image_url is None ==> fields.contains(("image_url"@, Seq::empty()))
            &&& d.eps_count matches Some(c) ==> fields.contains(
                ("eps_count"@, text::decimal(c as nat)),
            )
            &&& fields.contains(
                (
                    "message"@,
                    d.anime_name + " 第"@ + text::decimal(d.episode as nat) + "集 下载完成"@,
                ),
            )
        }),
{
    let fields = fields_of(NotificationView::EpisodeDownloaded(d));
    assert(fields[0].0 == "type"@);
    assert(fields[1] == ("anime_name"@, d.anime_name));
    assert(fields[2].0 == "season"@);
    assert(fields[3].0 == "episode"@);
    assert(fields[4] == ("library_path"@, d.library_path));
    assert(fields[5].0 == "name_cn"@);
    assert(fields[6].0 == "name_original"@);
    assert(fields[7].0 == "summary"@);
    assert(fields[8].0 == "rating"@);
    assert(fields[9].0 == "image_url"@);
    assert(fields[10].0 == "eps_count"@);
    assert(fields[11].0 == "message"@);
}

/// The fields of a failure say what failed and why.
pub proof fn law_fields_say_what_failed(f: FailedView)
    ensures
        ({
            let fields = fields_of(NotificationView::Failed(f));
            &&& fields.contains(("type"@, "failed"@))
            &&& fields.contains(("context"@, f.title))
            &&& fields.contains(("error"@, f.message))
            &&& fields.contains(("title"@, f.title))
            &&& fields.contains(("message"@, "[失败] "@ + f.title + ": "@ + f.message))
        }),
{
    let fields = fields_of(NotificationView::Failed(f));
    assert(fields[0] == ("type"@, "failed"@));
    assert(fields[1] == ("context"@, f.title));
    assert(fields[2] == ("error"@, f.message));
    assert(fields[3] == ("title"@, f.title));
    assert(fields[4].0 == "message"@);
}

/// An episode is told with the template for episodes, a failure with the one for failures, if
/// there is one, and with a built-in one of the same notation otherwise.
pub proof fn law_each_kind_has_its_template(
    cfg: WebhookView,
    d: EpisodeDownloadedView,
    f: FailedView,
)
    ensures
        webhook_message(cfg, NotificationView::EpisodeDownloaded(d)) == rendered(
            cfg.template,
            NotificationView::EpisodeDownloaded(d),
        ),
        cfg.error_template matches Some(t) ==> webhook_message(cfg, NotificationView::Failed(f))
            == rendered(t, NotificationView::Failed(f)),
        cfg.error_template is None ==> webhook_message(cfg, NotificationView::Failed(f)).1 == (
        match cfg.template {
            TemplateView::Json(_) => "application/json"@,
            TemplateView::Form(_) => "application/x-www-form-urlencoded"@,
        }),
{
}

/// A preset goes before a template of one's own; without either, the built-in one is used. A
/// template of one's own is JSON if it begins with a brace or a bracket, and a form otherwise. For
/// failures, a template of one's own goes first.
pub proof fn law_templates_are_chosen(preset: Preset, custom: Seq<char>)
    requires
        custom.len() > 0,
    ensures
        main_template(Some(preset), Some(custom)) == main_template(Some(preset), None),
        main_template(None, Some(custom)) == custom_template(custom),
        custom[0] == '{' || custom[0] == '[' ==> custom_template(custom) == TemplateView::Json(
            custom,
        ),
        custom[0] != '{' && custom[0] != '[' && !text::white(custom[0]) ==> custom_template(custom)
            == TemplateView::Form(custom),
        failure_template(Some(preset), Some(custom)) == Some(custom_template(custom)),
        failure_template(None, Some(custom)) == Some(custom_template(custom)),
        failure_template(Some(preset), None) is Some,
        failure_template(None, None) is None,
        preset_named("bark"@) == Some(Preset::Bark),
        preset_named("gotify"@) == Some(Preset::Gotify),
        preset_named("serverchan"@) == Some(Preset::Serverchan),
{
    text::law_trimmed_text_is_trimmed(custom);
    let t = text::trimmed(custom);
    let (before, behind) = choose|before: Seq<char>, behind: Seq<char>|
        custom == #[trigger] (before + t + behind) && (forall|i: int|
            0 <= i < before.len() ==> text::white(#[trigger] before[i])) && (forall|i: int|
            0 <= i < behind.len() ==> text::white(#[trigger] behind[i]));
    if !text::white(custom[0]) {
        if before.len() > 0 {
            assert(before[0] == custom[0]);
        }
        if t.len() == 0 {
            assert(behind[0] == custom[0]);
        }
        assert(t[0] == custom[0]);
    }
    reveal_strlit("bark");
    reveal_strlit("gotify");
    reveal_strlit("serverchan");
    assert("bark"@.len() == 4 && "gotify"@.len() == 6 && "serverchan"@.len() == 10);
}

} // verus!
