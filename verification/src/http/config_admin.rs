//! Runtime settings and the look of the application.

use vstd::prelude::*;
use vstd::string::*;
use vstd::utf8::encode_utf8;

use crate::lists::{selects_just, selects_last};
use crate::error::{forbidden, refusal, validation, AppError, Refusal};
use crate::grants::{refusal_in, Permissions};
use crate::principal::AuthContext;
use crate::text::{
    ascii_alphanumeric,
    begins,
    byte_len,
    chars_of,
    contains,
    has_text,
    is_ascii_alphanumeric,
    joined,
    lower,
    lowered,
    opt_text,
    same,
    starts_with,
    trim,
    trimmed,
};

verus! {

/// An administrator, or the holder of an emergency grant.
pub fn require_admin(ctx: &AuthContext) -> (r: Result<(), AppError>)
    ensures
        refusal(r) == (if ctx.admin || ctx.break_glass {
            None
        } else {
            Some(Refusal::Forbidden("admin only"@))
        }),
{
    if ctx.is_admin() || ctx.break_glass {
        Ok(())
    } else {
        Err(forbidden("admin only"))
    }
}

pub struct ConfigOut {
    pub key: String,
    pub value: String,
    pub value_type: String,
    pub scope: String,
}

/// A setting that has a place of its own, or belongs to nobody, and is not listed with the
/// others.
pub open spec fn is_kept_elsewhere(key: Seq<char>) -> bool {
    ||| starts_with(key, "test."@)
    ||| starts_with(key, "integration."@)
    ||| starts_with(key, "branding."@)
    ||| starts_with(key, "moderation."@)
    ||| starts_with(key, "welcome."@)
}

/// Whether a setting is listed.
pub fn is_listed(key: &str) -> (r: bool)
    ensures
        r == !is_kept_elsewhere(key@),
{
    !begins(key, "test.") && !begins(key, "integration.") && !begins(key, "branding.") && !begins(
        key,
        "moderation.",
    ) && !begins(key, "welcome.")
}

/// The colours and fonts of the application.
pub struct ThemeOut {
    pub primary: Option<String>,
    pub accent: Option<String>,
    pub bg: Option<String>,
    pub fg: Option<String>,
    pub font_sans: Option<String>,
    pub font_serif: Option<String>,
}

impl Default for ThemeOut {
    /// The application's own look.
    fn default() -> (r: ThemeOut)
        ensures
            r.primary is None,
            r.accent is None,
            r.bg is None,
            r.fg is None,
            r.font_sans is None,
            r.font_serif is None,
    {
        ThemeOut {
            primary: None,
            accent: None,
            bg: None,
            fg: None,
            font_sans: None,
            font_serif: None,
        }
    }
}

/// A character that could end a value in a style sheet.
pub open spec fn breaks_out(c: char) -> bool {
    c == '<' || c == '>' || c == ';' || c == '{' || c == '}' || c == '\\'
}

/// A character that a colour is written in.
pub open spec fn is_colour_char(c: char) -> bool {
    is_ascii_alphanumeric(c) || c == ' ' || c == '#' || c == '.' || c == ',' || c == '%' || c == '('
        || c == ')' || c == '/' || c == '-'
}

/// A character that a font's name is written in.
pub open spec fn is_font_char(c: char) -> bool {
    is_ascii_alphanumeric(c) || c == ' ' || c == ',' || c == '\'' || c == '"' || c == '-'
}

pub open spec fn all_of(s: Seq<char>, f: spec_fn(char) -> bool) -> bool {
    forall|i: int| 0 <= i < s.len() ==> f(#[trigger] s[i])
}

/// A colour that can stand in a style sheet.
pub open spec fn is_colour(v: Seq<char>) -> bool {
    &&& 0 < v.len()
    &&& encode_utf8(v).len() <= 64
    &&& !has_text(lowered(v), "url("@)
    &&& !has_text(lowered(v), "expression"@)
    &&& !has_text(lowered(v), "/*"@)
    &&& all_of(v, |c: char| is_colour_char(c))
}

/// A list of fonts that can stand in a style sheet.
pub open spec fn is_font(v: Seq<char>) -> bool {
    &&& 0 < v.len()
    &&& encode_utf8(v).len() <= 120
    &&& !has_text(lowered(v), "url("@)
    &&& all_of(v, |c: char| is_font_char(c))
}

fn colour_char(c: char) -> (r: bool)
    ensures
        r == is_colour_char(c),
{
    ascii_alphanumeric(c) || c == ' ' || c == '#' || c == '.' || c == ',' || c == '%' || c == '('
        || c == ')' || c == '/' || c == '-'
}

fn font_char(c: char) -> (r: bool)
    ensures
        r == is_font_char(c),
{
    ascii_alphanumeric(c) || c == ' ' || c == ',' || c == '\'' || c == '"' || c == '-'
}

/// Accepts a colour: a name, a number, or a function, as long as it cannot break out of the
/// value that it becomes.
pub fn safe_colour(s: &str) -> (r: Option<String>)
    ensures
        opt_text(r) == (if is_colour(trimmed(s@)) {
            Some(trimmed(s@))
        } else {
            None
        }),
{
    let v = trim(s);
    if v.as_str().is_empty() || byte_len(v.as_str()) > 64 {
        return None;
    }
    let small = lower(v.as_str());
    if contains(small.as_str(), "url(") || contains(small.as_str(), "expression") || contains(
        small.as_str(),
        "/*",
    ) {
        return None;
    }
    let cs = chars_of(v.as_str());
    let mut i: usize = 0;
    while i < cs.len()
        invariant
            i <= cs@.len(),
            cs@ == v@,
            v@ == trimmed(s@),
            forall|k: int| 0 <= k < i ==> is_colour_char(#[trigger] v@[k]),
        decreases cs@.len() - i,
    {
        if !colour_char(cs[i]) {
            assert(!is_colour_char(v@[i as int]));
            return None;
        }
        i = i + 1;
    }
    Some(v)
}

/// Accepts a list of fonts: names, quotes and commas.
pub fn safe_font(s: &str) -> (r: Option<String>)
    ensures
        opt_text(r) == (if is_font(trimmed(s@)) {
            Some(trimmed(s@))
        } else {
            None
        }),
{
    let v = trim(s);
    if v.as_str().is_empty() || byte_len(v.as_str()) > 120 {
        return None;
    }
    let small = lower(v.as_str());
    if contains(small.as_str(), "url(") {
        return None;
    }
    let cs = chars_of(v.as_str());
    let mut i: usize = 0;
    while i < cs.len()
        invariant
            i <= cs@.len(),
            cs@ == v@,
            v@ == trimmed(s@),
            forall|k: int| 0 <= k < i ==> is_font_char(#[trigger] v@[k]),
        decreases cs@.len() - i,
    {
        if !font_char(cs[i]) {
            assert(!is_font_char(v@[i as int]));
            return None;
        }
        i = i + 1;
    }
    Some(v)
}

/// What is accepted for a style sheet cannot break out of the value it becomes.
pub proof fn accepted_styles_cannot_break_out(v: Seq<char>, i: int)
    requires
        is_colour(v) || is_font(v),
        0 <= i < v.len(),
    ensures
        !breaks_out(v[i]),
        !breaks_out(lowered(v)[i]),
{
    if is_colour(v) {
        assert(is_colour_char(v[i]));
    } else {
        assert(is_font_char(v[i]));
    }
}

/// An optional value that is accepted.
pub open spec fn accepted(o: Option<String>, ok: spec_fn(Seq<char>) -> bool) -> Option<Seq<char>> {
    match o {
        Some(s) => if ok(trimmed(s@)) {
            Some(trimmed(s@))
        } else {
            None
        },
        None => None,
    }
}

fn colour_in(o: &Option<String>) -> (r: Option<String>)
    ensures
        opt_text(r) == accepted(*o, |v: Seq<char>| is_colour(v)),
{
    match o {
        Some(s) => safe_colour(s.as_str()),
        None => None,
    }
}

fn font_in(o: &Option<String>) -> (r: Option<String>)
    ensures
        opt_text(r) == accepted(*o, |v: Seq<char>| is_font(v)),
{
    match o {
        Some(s) => safe_font(s.as_str()),
        None => None,
    }
}

/// The look that is shown to everybody, before anybody signs in: what is stored, as far as
/// it is accepted.
pub fn get_theme(stored: &ThemeOut) -> (r: ThemeOut)
    ensures
        opt_text(r.primary) == accepted(stored.primary, |v: Seq<char>| is_colour(v)),
        opt_text(r.accent) == accepted(stored.accent, |v: Seq<char>| is_colour(v)),
        opt_text(r.bg) == accepted(stored.bg, |v: Seq<char>| is_colour(v)),
        opt_text(r.fg) == accepted(stored.fg, |v: Seq<char>| is_colour(v)),
        opt_text(r.font_sans) == accepted(stored.font_sans, |v: Seq<char>| is_font(v)),
        opt_text(r.font_serif) == accepted(stored.font_serif, |v: Seq<char>| is_font(v)),
{
    ThemeOut {
        primary: colour_in(&stored.primary),
        accent: colour_in(&stored.accent),
        bg: colour_in(&stored.bg),
        fg: colour_in(&stored.fg),
        font_sans: font_in(&stored.font_sans),
        font_serif: font_in(&stored.font_serif),
    }
}

pub struct SetConfig {
    pub value: String,
    pub value_type: String,
    pub scope: String,
}

/// The type of a setting where nobody says.
pub fn default_type() -> (r: String)
    ensures
        r@ == "string"@,
{
    "string".to_owned()
}

/// The scope of a setting where nobody says.
pub fn default_scope() -> (r: String)
    ensures
        r@ == "global"@,
{
    "global".to_owned()
}

/// The type of a setting.
#[derive(Clone, Copy, Debug, PartialEq, Eq, Structural)]
pub enum ConfigValueType {
    Text,
    Integer,
    Float,
    Bool,
    Json,
}

pub open spec fn type_named(s: Seq<char>) -> Option<ConfigValueType> {
    if s == "string"@ {
        Some(ConfigValueType::Text)
    } else if s == "int"@ {
        Some(ConfigValueType::Integer)
    } else if s == "float"@ {
        Some(ConfigValueType::Float)
    } else if s == "bool"@ {
        Some(ConfigValueType::Bool)
    } else if s == "json"@ {
        Some(ConfigValueType::Json)
    } else {
        None
    }
}

pub fn parse_type(s: &str) -> (r: Result<ConfigValueType, AppError>)
    ensures
        match type_named(s@) {
            Some(t) => r == Ok::<ConfigValueType, AppError>(t),
            None => refusal(r) == Some(Refusal::Validation("unknown value_type: "@ + s@)),
        },
{
    if same(s, "string") {
        Ok(ConfigValueType::Text)
    } else if same(s, "int") {
        Ok(ConfigValueType::Integer)
    } else if same(s, "float") {
        Ok(ConfigValueType::Float)
    } else if same(s, "bool") {
        Ok(ConfigValueType::Bool)
    } else if same(s, "json") {
        Ok(ConfigValueType::Json)
    } else {
        Err(AppError::Validation(joined("unknown value_type: ", s)))
    }
}

/// What changing a setting comes to: whether everything that happened up to now is passed
/// over, and either the type of the value to be stored or why it is not stored.
pub struct ConfigChange {
    pub stamp_watermark: bool,
    pub outcome: Result<ConfigValueType, AppError>,
}

/// Switching workflows on, where they were off, passes over the events of the time they were
/// off. Saving the switch again while they are on does not.
pub open spec fn stamps(key: Seq<char>, value: Seq<char>, workflows_on: bool) -> bool {
    key == "features.workflows"@ && value == "true"@ && !workflows_on
}

/// Changes a setting, for whoever may manage them. `white_label_refusal` is what the edition has against changing the
/// look; it is asked for the settings of the look alone, and then nothing else happens.
pub fn set_config(
    permissions: Permissions,
    key: &str,
    body: &SetConfig,
    white_label_refusal: Option<AppError>,
    workflows_on: bool,
) -> (r: ConfigChange)
    ensures
        ({
            let early_refusal = if permissions.config_manage is Some {
                refusal_in(permissions.config_manage)
            } else if starts_with(key@, "branding."@) {
                refusal_in(white_label_refusal)
            } else {
                None
            };
            &&& refusal(r.outcome) == (if early_refusal is Some {
                early_refusal
            } else if type_named(body.value_type@) is None {
                Some(Refusal::Validation("unknown value_type: "@ + body.value_type@))
            } else {
                None
            })
            &&& r.outcome matches Ok(t) ==> type_named(body.value_type@) == Some(t)
            &&& r.stamp_watermark == (early_refusal is None && stamps(
                key@,
                body.value@,
                workflows_on,
            ))
        }),
{
    match permissions.config_manage {
        Some(e) => {
            return ConfigChange { stamp_watermark: false, outcome: Err(e) };
        },
        None => {},
    }
    if begins(key, "branding.") {
        match white_label_refusal {
            Some(e) => {
                return ConfigChange { stamp_watermark: false, outcome: Err(e) };
            },
            None => {},
        }
    }
    let stamp_watermark = same(key, "features.workflows") && same(body.value.as_str(), "true")
        && !workflows_on;
    ConfigChange { stamp_watermark, outcome: parse_type(body.value_type.as_str()) }
}

/// Saving a switch that is on leaves the queued events alone.
pub proof fn resaving_does_not_skip_events(key: Seq<char>, value: Seq<char>)
    ensures
        !stamps(key, value, true),
{
}

pub struct BrandingOut {
    pub kind: String,
    pub mime: String,
}

/// An image of the house, where there is one of that kind: where it is stored, and of what type.
pub fn get_branding(row: Option<(String, String)>) -> (r: Result<(String, String), AppError>)
    ensures
        match row {
            Some(x) => r == Ok::<(String, String), AppError>(x),
            None => refusal(r) == Some(Refusal::Validation("no such branding asset"@)),
        },
{
    match row {
        Some(x) => Ok(x),
        None => Err(validation("no such branding asset")),
    }
}

/// The settings that are listed, in their order.
pub open spec fn listed(rows: Seq<ConfigOut>) -> Seq<ConfigOut>
    decreases rows.len(),
{
    if rows.len() == 0 {
        Seq::empty()
    } else {
        let before = listed(rows.drop_last());
        if !is_kept_elsewhere(rows.last().key@) {
            before.push(rows.last())
        } else {
            before
        }
    }
}

/// The settings, for whoever may manage them.
pub fn list_config(permissions: Permissions, rows: Vec<ConfigOut>) -> (r: Result<
    Vec<ConfigOut>,
    AppError,
>)
    ensures
        refusal(r) == refusal_in(permissions.config_manage),
        r matches Ok(v) ==> v@ == listed(rows@),
{
    match permissions.config_manage {
        Some(e) => {
            return Err(e);
        },
        None => {},
    }
    let n: usize = rows.len();
    let mut rest = rows;
    let mut out: Vec<ConfigOut> = Vec::new();
    let mut i: usize = 0;
    assert(rows@.take(0) == Seq::<ConfigOut>::empty());
    while i < n
        invariant
            n == rows@.len(),
            i <= n,
            rest@ == rows@.skip(i as int),
            out@ == listed(rows@.take(i as int)),
        decreases n - i,
    {
        let row = rest.remove(0);
        assert(row == rows@[i as int]);
        assert(rest@ =~= rows@.skip(i as int + 1));
        assert(rows@.take(i as int + 1).drop_last() == rows@.take(i as int));
        if is_listed(row.key.as_str()) {
            out.push(row);
        }
        i = i + 1;
    }
    assert(rows@.take(rows@.len() as int) == rows@);
    Ok(out)
}

/// A setting that has a place of its own is not in the list, and every other one is.
pub proof fn listed_settings_have_no_other_place(rows: Seq<ConfigOut>)
    ensures
        forall|i: int|
            0 <= i < listed(rows).len() ==> !is_kept_elsewhere((#[trigger] listed(rows)[i]).key@),
        forall|i: int|
            0 <= i < rows.len() && !is_kept_elsewhere((#[trigger] rows[i]).key@) ==> listed(rows).contains(
                rows[i],
            ),
    decreases rows.len(),
{
    if rows.len() > 0 {
        let before = rows.drop_last();
        listed_settings_have_no_other_place(before);
        assert forall|i: int|
            0 <= i < rows.len() && !is_kept_elsewhere((#[trigger] rows[i]).key@) implies listed(
            rows,
        ).contains(rows[i]) by {
            if i < before.len() {
                assert(before[i] == rows[i]);
                let k = choose|k: int| 0 <= k < listed(before).len() && listed(before)[k] == rows[i];
                assert(listed(rows)[k] == rows[i]);
            } else {
                assert(listed(rows)[listed(rows).len() - 1] == rows[i]);
            }
        }
    }
}

/// Every setting is listed but those that have a place of their own, by the beginning of their key.
pub proof fn settings_without_a_place_are_listed(s: Seq<ConfigOut>)
    ensures
        listed(s)
            == s.filter(
                |x: ConfigOut| !(
                    "test."@.is_prefix_of(x.key@)
                        || "integration."@.is_prefix_of(x.key@)
                        || "branding."@.is_prefix_of(x.key@)
                        || "moderation."@.is_prefix_of(x.key@)
                        || "welcome."@.is_prefix_of(x.key@)
                )
            ),
        forall|x: ConfigOut|
            #[trigger] listed(s).contains(x)
                <==> s.contains(x)
                    && (
                        !(
                            "test."@.is_prefix_of(x.key@)
                                || "integration."@.is_prefix_of(x.key@)
                                || "branding."@.is_prefix_of(x.key@)
                                || "moderation."@.is_prefix_of(x.key@)
                                || "welcome."@.is_prefix_of(x.key@)
                        )
                    ),
    decreases s.len(),
{
    let p = |x: ConfigOut| !(
            "test."@.is_prefix_of(x.key@)
                || "integration."@.is_prefix_of(x.key@)
                || "branding."@.is_prefix_of(x.key@)
                || "moderation."@.is_prefix_of(x.key@)
                || "welcome."@.is_prefix_of(x.key@)
        );
    selects_last(s, p);
    selects_just(s, p);
    if s.len() > 0 {
        settings_without_a_place_are_listed(s.drop_last());
    }
    assert(listed(s) =~= s.filter(p));
    assert forall|x: ConfigOut|
        #[trigger] listed(s).contains(x)
            <==> s.contains(x)
                && (
                    !(
                        "test."@.is_prefix_of(x.key@)
                            || "integration."@.is_prefix_of(x.key@)
                            || "branding."@.is_prefix_of(x.key@)
                            || "moderation."@.is_prefix_of(x.key@)
                            || "welcome."@.is_prefix_of(x.key@)
                    )
                ) by {
        assert(s.filter(p).contains(x) <==> s.contains(x) && p(x));
    }
}

/// A setting is of one of five types, each under its own name.
pub proof fn settings_are_of_a_type(s: Seq<char>)
    ensures
        type_named("string"@) == Some(ConfigValueType::Text),
        type_named("int"@) == Some(ConfigValueType::Integer),
        type_named("float"@) == Some(ConfigValueType::Float),
        type_named("bool"@) == Some(ConfigValueType::Bool),
        type_named("json"@) == Some(ConfigValueType::Json),
        type_named(s) is Some
            ==> s == "string"@ || s == "int"@ || s == "float"@ || s == "bool"@ || s == "json"@,
{
    reveal_strlit("string");
    reveal_strlit("int");
    reveal_strlit("float");
    reveal_strlit("bool");
    reveal_strlit("json");
    assert("string"@.len() != "int"@.len());
    assert("string"@.len() != "float"@.len());
    assert("string"@.len() != "bool"@.len());
    assert("string"@.len() != "json"@.len());
    assert("int"@.len() != "float"@.len());
    assert("int"@.len() != "bool"@.len());
    assert("int"@.len() != "json"@.len());
    assert("float"@.len() != "bool"@.len());
    assert("float"@.len() != "json"@.len());
    assert("bool"@[0] != "json"@[0]);
}

/// A style is taken without the blanks around it where it can be had, and else left out.
pub proof fn styles_are_accepted_or_dropped(
    o: Option<String>,
    ok: spec_fn(Seq<char>) -> bool,
    c: char,
    s: Seq<char>,
    f: spec_fn(char) -> bool,
)
    ensures
        accepted(o, ok) is Some <==> (o matches Some(t) && ok(trimmed(t@))),
        accepted(o, ok) matches Some(v) ==> v == trimmed(o->0@),
        is_colour_char(c) <==> is_ascii_alphanumeric(c) || " #.,%()/-"@.contains(c),
        is_font_char(c) <==> is_ascii_alphanumeric(c) || " ,'\"-"@.contains(c),
        all_of(s, f) <==> forall|i: int| #![trigger s[i]] 0 <= i < s.len() ==> f(s[i]),
{
    reveal_strlit(" #.,%()/-");
    reveal_strlit(" ,'\"-");
    let colours = " #.,%()/-"@;
    let fonts = " ,'\"-"@;
    assert(colours[0] == ' ' && colours[1] == '#' && colours[2] == '.' && colours[3] == ',');
    assert(colours[4] == '%' && colours[5] == '(' && colours[6] == ')' && colours[7] == '/');
    assert(colours[8] == '-' && colours.len() == 9);
    assert(fonts[0] == ' ' && fonts[1] == ',' && fonts[2] == '\'' && fonts[3] == '"');
    assert(fonts[4] == '-' && fonts.len() == 5);
}

/// Settings of five families have another place. A colour and a font hold no more than such values
/// need and call nothing up. Switching workflows on is stamped where they were off.
pub proof fn which_settings_and_styles(
    key: Seq<char>,
    c: char,
    v: Seq<char>,
    value: Seq<char>,
    on: bool,
)
    ensures
        is_kept_elsewhere(key)
            <==> starts_with(key, "test."@)
                || starts_with(key, "integration."@)
                || starts_with(key, "branding."@)
                || starts_with(key, "moderation."@)
                || starts_with(key, "welcome."@),
        breaks_out(c) <==> c == '<' || c == '>' || c == ';' || c == '{' || c == '}' || c == '\\',
        is_colour(v)
            <==> 0 < v.len()
                && encode_utf8(v).len() <= 64
                && !has_text(lowered(v), "url("@)
                && !has_text(lowered(v), "expression"@)
                && !has_text(lowered(v), "/*"@)
                && forall|i: int| #![trigger v[i]] 0 <= i < v.len() ==> is_colour_char(v[i]),
        is_font(v)
            <==> 0 < v.len()
                && encode_utf8(v).len() <= 120
                && !has_text(lowered(v), "url("@)
                && forall|i: int| #![trigger v[i]] 0 <= i < v.len() ==> is_font_char(v[i]),
        stamps(key, value, on) <==> key == "features.workflows"@ && value == "true"@ && !on,
{
}

} // verus!
