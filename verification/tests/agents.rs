use fosnie::http::agents::{
    create_agent, delete_agent, get_agent, get_agent_version, list_agents, require_manage_agent,
    rollback_agent_version, snapshot_version, update_agent, validate_modes, validate_toolset,
    version_summary, version_to_restore, Agent, AgentHistory, AgentRow, AgentVersion, CreateAgent, NamedTool,
    ServedTool, ToolKind, UpdateAgent,
};
use fosnie::order::Dated;
use fosnie::{AppError, AuthContext, PlatformRole};

/// Items that are given the newest first, stored the other way round.
fn dated<T>(items: Vec<T>) -> Vec<Dated<T>> {
    let mut rows: Vec<Dated<T>> =
        items.into_iter().enumerate().map(|(i, item)| Dated { at: 10_000 - i as i128, item }).collect();
    rows.reverse();
    rows
}

fn ctx(id: Option<u128>, admin: bool) -> AuthContext {
    AuthContext {
        user_id: id,
        role: PlatformRole::User,
        admin,
        break_glass: false,
        mfa_enroll_only: false,
    }
}

fn agent() -> Agent {
    Agent {
        name: "Clerk".into(),
        description: Some("files things".into()),
        system_prompt: "You file.".into(),
        params: serde_json::Value::from(1),
        sector: Some("legal".into()),
        modes: vec!["legal".into()],
        tools: vec!["search".into(), "read".into()],
        project_knowledge_ids: vec![0x1234, 7],
    }
}

fn native(name: &str) -> NamedTool {
    NamedTool { name: name.into(), kind: ToolKind::Native }
}

fn served(name: &str, slug: &str, tool: &str, catalogue: Option<Vec<String>>) -> NamedTool {
    NamedTool {
        name: name.into(),
        kind: ToolKind::Served(ServedTool { slug: slug.into(), tool: tool.into(), catalogue }),
    }
}

fn message(r: Result<(), AppError>) -> String {
    match r {
        Err(AppError::Validation(m)) => m,
        Err(AppError::Forbidden(m)) => m,
        _ => panic!("not refused"),
    }
}

#[test]
fn agents_are_managed_by_their_makers() {
    assert!(require_manage_agent(&ctx(Some(7), false), Some(Some(7))).is_ok());
    assert!(require_manage_agent(&ctx(Some(8), true), Some(Some(7))).is_ok());
    assert_eq!(
        message(require_manage_agent(&ctx(Some(8), false), Some(Some(7)))),
        "only the agent's owner or an admin may manage it"
    );
    assert!(require_manage_agent(&ctx(Some(8), false), Some(None)).is_err());
    assert_eq!(message(require_manage_agent(&ctx(Some(8), false), None)), "agent not found");
    assert_eq!(message(require_manage_agent(&ctx(None, false), None)), "a user is required");
}

#[test]
fn the_first_tool_that_cannot_be_granted_is_named() {
    assert!(validate_toolset(&vec![native("search")]).is_ok());
    assert!(validate_toolset(&vec![served("crm__*", "crm", "*", Some(Vec::new()))]).is_ok());
    assert!(validate_toolset(&vec![served("crm__find", "crm", "find", Some(vec!["find".into()]))]).is_ok());
    assert_eq!(
        message(validate_toolset(&vec![
            native("search"),
            served("crm__drop", "crm", "drop", Some(vec!["find".into()])),
            NamedTool { name: "x".into(), kind: ToolKind::Unknown },
        ])),
        "tool 'drop' is not in MCP server 'crm' catalogue (grant 'crm__drop')"
    );
    assert_eq!(
        message(validate_toolset(&vec![served("erp__*", "erp", "*", None)])),
        "unknown MCP server 'erp' in tool grant 'erp__*'"
    );
    assert_eq!(
        message(validate_toolset(&vec![NamedTool { name: "x".into(), kind: ToolKind::Unknown }])),
        "unknown tool 'x' — not in the closed registry"
    );
}

#[test]
fn an_agent_has_modes() {
    assert!(validate_modes(&vec!["general".into(), "research".into()]).is_ok());
    assert_eq!(
        message(validate_modes(&Vec::new())),
        "an agent must be available in at least one workmode"
    );
    assert_eq!(
        message(validate_modes(&vec!["legal".into(), "poetry".into()])),
        "mode must be one of general/legal/research (got 'poetry')"
    );
}

#[test]
fn a_new_agent_without_parameters_has_an_empty_object() {
    let body = CreateAgent {
        name: "Clerk".into(),
        description: None,
        system_prompt: "You file.".into(),
        params: None,
        tools: vec!["search".into()],
        project_knowledge_ids: Vec::new(),
        sector: None,
        modes: vec!["general".into()],
    };
    let n = create_agent(&ctx(Some(7), false), body, &vec![native("search")]).unwrap();
    assert_eq!(n.created_by, 7);
    assert_eq!(n.agent.params, serde_json::Value::Object(serde_json::Map::new()));
    assert_eq!(n.agent.tools, vec!["search"]);
}

#[test]
fn seeded_agents_are_seen_and_not_managed() {
    let rows = vec![
        AgentRow { id: 1, created_by: None, agent: agent() },
        AgentRow { id: 2, created_by: Some(7), agent: agent() },
        AgentRow { id: 3, created_by: Some(8), agent: agent() },
    ];
    let out = list_agents(&ctx(Some(7), false), dated(rows));
    let seen: Vec<(u128, bool)> = out.iter().map(|a| (a.id, a.can_manage)).collect();
    assert_eq!(seen, vec![(1, false), (2, true)]);
    let row = AgentRow { id: 1, created_by: None, agent: agent() };
    let d = get_agent(&ctx(Some(7), true), Some(row), Vec::new()).unwrap();
    assert!(d.can_manage);
    assert!(get_agent(&ctx(Some(7), true), None, Vec::new()).is_err());
}

#[test]
fn what_is_not_given_stays() {
    let body = UpdateAgent {
        name: None,
        description: None,
        system_prompt: Some("You sort.".into()),
        params: None,
        tools: None,
        project_knowledge_ids: Some(vec![9]),
        sector: None,
        modes: None,
    };
    let row = AgentRow { id: 1, created_by: Some(7), agent: agent() };
    let a = update_agent(&ctx(Some(7), false), Some(row), body, &Vec::new()).unwrap();
    assert_eq!(a.name, "Clerk");
    assert_eq!(a.system_prompt, "You sort.");
    assert_eq!(a.tools, vec!["search", "read"]);
    assert_eq!(a.project_knowledge_ids, vec![9]);
    assert!(delete_agent(&ctx(Some(7), true), None).is_err());
    assert!(delete_agent(&ctx(Some(7), false), Some(Some(7))).is_ok());
}

#[test]
fn going_back_to_a_version_restores_it() {
    let v = snapshot_version(Some(4), &agent(), "updated", Some(7));
    assert_eq!(v.version_number, 5);
    assert_eq!(
        v.project_knowledge_ids,
        serde_json::Value::from(vec![
            "00000000-0000-0000-0000-000000001234".to_string(),
            "00000000-0000-0000-0000-000000000007".to_string(),
        ])
    );
    let mut other = agent();
    other.system_prompt = "You sort.".into();
    let versions = vec![v, snapshot_version(Some(8), &other, "updated", Some(8))];
    let restored = version_to_restore(&ctx(Some(7), false), Some(Some(7)), &versions, 5).unwrap();
    let mut now = agent();
    now.name = "Other".into();
    now.tools = Vec::new();
    now.modes = vec!["general".into()];
    let mut h = AgentHistory { agent: Some(now), versions };
    let known = vec![native("search"), native("read")];
    assert_eq!(rollback_agent_version(&mut h, restored, &known, Some(7)).unwrap(), 10);
    let numbers: Vec<i32> = h.versions.iter().map(|v| v.version_number).collect();
    assert_eq!(numbers, vec![5, 9, 10]);
    let n = &h.versions[2];
    assert_eq!((n.name.as_str(), n.source.as_str(), n.created_by), ("Clerk", "rollback", Some(7)));
    assert_eq!((&n.tools, &n.params), (&h.versions[0].tools, &h.versions[0].params));
    assert_eq!(h.versions[1].system_prompt, "You sort.");
    let again = version_to_restore(&ctx(Some(7), true), None, &h.versions, 9).unwrap();
    let a = h.agent.take().unwrap();
    assert!(matches!(
        rollback_agent_version(&mut h, again, &Vec::new(), None),
        Err(AppError::Validation(m)) if m == "agent not found"
    ));
    assert_eq!(h.versions.len(), 3);
    assert_eq!(a.name, "Clerk");
    assert_eq!(a.tools, vec!["search", "read"]);
    assert_eq!(a.project_knowledge_ids, vec![0x1234, 7]);
    assert_eq!(a.modes, vec!["general"]);
    assert_eq!(snapshot_version(None, &agent(), "created", None).version_number, 1);
}

#[test]
fn a_version_with_other_things_in_its_lists_restores_none_of_them() {
    let mut v: AgentVersion = snapshot_version(None, &agent(), "created", None);
    v.tools = serde_json::Value::from(vec![1, 2]);
    v.project_knowledge_ids = serde_json::Value::from(vec!["not an id".to_string()]);
    let r = version_to_restore(&ctx(Some(7), true), None, &vec![v], 1).unwrap();
    assert!(r.tools.is_empty());
    assert!(r.project_knowledge_ids.is_empty());
    assert!(version_to_restore(&ctx(Some(7), true), None, &Vec::new(), 1).is_err());
}

#[test]
fn versions_are_shown_with_their_time() {
    let v = snapshot_version(None, &agent(), "created", Some(7));
    let s = version_summary(v, 1_000_000_000);
    assert_eq!(s.created_at, "1970-01-01T00:00:01Z");
    assert_eq!(s.source, "created");
    let v = snapshot_version(None, &agent(), "created", Some(7));
    assert_eq!(get_agent_version(vec![(v, 0)], 1).unwrap().created_at, "1970-01-01T00:00:00Z");
    assert!(get_agent_version(Vec::new(), 1).is_err());
}
