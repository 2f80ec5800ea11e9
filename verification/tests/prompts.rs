use fosnie::http::prompts::{
    create_prompt, get_prompt, list_prompts, load_authorized, placeholders, render, render_prompt,
    CreatePrompt, PromptEntry, PromptRow, RenderRequest,
};
use fosnie::order::Dated;
use fosnie::{AuthContext, PlatformRole};

/// Items that are given the newest first, stored the other way round.
fn dated<T>(items: Vec<T>) -> Vec<Dated<T>> {
    let mut rows: Vec<Dated<T>> =
        items.into_iter().enumerate().map(|(i, item)| Dated { at: 10_000 - i as i128, item }).collect();
    rows.reverse();
    rows
}

fn ctx(id: u128, role: PlatformRole, admin: bool) -> AuthContext {
    AuthContext {
        user_id: Some(id),
        role,
        admin,
        break_glass: false,
        mfa_enroll_only: false,
    }
}

#[test]
fn placeholders_distinct_in_order() {
    let t = "Dear {{ name }}, your {{item}} re {{name}} and {{ topic }}.";
    assert_eq!(placeholders(t), vec!["name", "item", "topic"]);
}

#[test]
fn placeholders_ignores_unclosed() {
    assert!(placeholders("hi {{ name").is_empty());
}

#[test]
fn render_preserves_non_ascii_literals() {
    let mut m = serde_json::Map::new();
    m.insert("name".into(), serde_json::Value::from("Renée"));
    assert_eq!(render("Café — {{name}} — naïve", &m), "Café — Renée — naïve");
}

#[test]
fn render_substitutes_known_keeps_unknown() {
    let mut m = serde_json::Map::new();
    m.insert("name".into(), serde_json::Value::from("Alice"));
    let out = render("Hi {{name}}, see {{missing}}.", &m);
    assert_eq!(out, "Hi Alice, see {{missing}}.");
}

#[test]
fn render_handles_non_string_values() {
    let mut m = serde_json::Map::new();
    m.insert("n".into(), serde_json::Value::from(42));
    assert_eq!(render("count={{n}}", &m), "count=42");
}

#[test]
fn render_without_values_gives_the_template_back() {
    let m = serde_json::Map::new();
    for t in ["", "plain", "{{a}} and {{ b }}", "{{ open", "}} {{}} {{"] {
        assert_eq!(render(t, &m), t);
    }
}

fn row(scope: &str, by: Option<u128>) -> PromptRow {
    PromptRow {
        name: "Letter".into(),
        content: Some("Dear {{name}}".into()),
        agent_id: None,
        scope: scope.into(),
        project_id: None,
        created_by: by,
        variables: Vec::new(),
    }
}

#[test]
fn a_personal_prompt_is_its_maker_s() {
    let me = ctx(7, PlatformRole::User, false);
    assert!(load_authorized(&me, Some(row("personal", Some(8))), false, "").is_err());
    let p = load_authorized(&me, Some(row("personal", Some(7))), false, "").unwrap();
    let mut values = serde_json::Map::new();
    values.insert("name".into(), serde_json::Value::from("Ada"));
    assert_eq!(render_prompt(&p, &RenderRequest { values }).content, "Dear Ada");
    let d = get_prompt(3, p);
    assert_eq!(d.placeholders, vec!["name"]);
    assert!(load_authorized(&me, None, false, "").is_err());
    assert!(load_authorized(&me, Some(row("global", None)), false, "").is_ok());
}

#[test]
fn listed_prompts_leave_out_the_personal_ones_of_others() {
    let me = ctx(7, PlatformRole::User, false);
    let entry = |id: u128, scope: &str, by: u128| PromptEntry {
        id,
        name: "n".into(),
        scope: scope.into(),
        project_id: None,
        agent_id: None,
        created_by: Some(by),
    };
    let out = list_prompts(
        &me,
        dated(vec![entry(1, "personal", 8), entry(2, "personal", 7), entry(3, "global", 8)]),
    );
    let ids: Vec<u128> = out.iter().map(|p| p.id).collect();
    assert_eq!(ids, vec![2, 3]);
}

#[test]
fn global_prompts_are_made_by_leads() {
    let body = CreatePrompt {
        name: "n".into(),
        content: "c".into(),
        scope: "global".into(),
        project_id: None,
        agent_id: None,
        variables: Vec::new(),
    };
    assert!(create_prompt(&ctx(7, PlatformRole::User, false), &body, true).is_err());
    assert!(create_prompt(&ctx(7, PlatformRole::PowerUser, false), &body, true).is_ok());
}
