//! API response conversion tests.

use j9s::api_types::{
    AdfNode, ApiBoardConfigResponse, ApiColumn, ApiColumnConfig, ApiDescription, ApiFieldValue,
    ApiIssue, ApiIssueFields, ApiStatus, ApiStatusRef, ApiUser, extract_description,
    extract_epic_value,
};

fn fields() -> ApiIssueFields {
    ApiIssueFields {
        summary: "A summary".to_string(),
        status: Some(ApiStatus { id: "3".to_string(), name: "In Progress".to_string() }),
        issue_type: None,
        assignee: Some(ApiUser { display_name: "Alice".to_string() }),
        reporter: None,
        priority: None,
        labels: vec!["a".to_string(), "b".to_string()],
        created: "2024-01-01".to_string(),
        updated: "2024-01-02".to_string(),
        description: None,
        extra: vec![(
            "customfield_10014".to_string(),
            ApiFieldValue::Text("PROJ-9".to_string()),
        )],
    }
}

#[test]
fn test_into_summary_with_epic() {
    let api = ApiIssue { key: "PROJ-1".to_string(), fields: fields() };
    let summary = api.into_summary_with_epic(Some("customfield_10014"));
    assert_eq!(summary.key, "PROJ-1");
    assert_eq!(summary.status, "In Progress");
    assert_eq!(summary.status_id, "3");
    assert_eq!(summary.issue_type, "");
    assert_eq!(summary.assignee, Some("Alice".to_string()));
    assert_eq!(summary.epic, Some("PROJ-9".to_string()));
    assert_eq!(summary.updated, "2024-01-02");
}

#[test]
fn test_into_summary_without_epic_field() {
    let api = ApiIssue { key: "PROJ-1".to_string(), fields: fields() };
    let summary = api.into_summary();
    assert_eq!(summary.epic, None);
}

#[test]
fn test_into_full_extracts_adf_description() {
    let mut f = fields();
    f.description = Some(ApiDescription::Doc(vec![AdfNode {
        node_type: "paragraph".to_string(),
        text: None,
        content: vec![
            AdfNode {
                node_type: "text".to_string(),
                text: Some("Hello".to_string()),
                content: vec![],
            },
            AdfNode { node_type: "hardBreak".to_string(), text: None, content: vec![] },
            AdfNode {
                node_type: "text".to_string(),
                text: Some("world".to_string()),
                content: vec![],
            },
        ],
    }]));
    let api = ApiIssue { key: "PROJ-2".to_string(), fields: f };
    let issue = api.into_full();
    assert_eq!(issue.description, Some("Hello\nworld\n".to_string()));
    assert_eq!(issue.labels, vec!["a".to_string(), "b".to_string()]);
}

#[test]
fn test_extract_description_plain_and_empty() {
    assert_eq!(
        extract_description(&ApiDescription::Text("plain".to_string())),
        Some("plain".to_string())
    );
    assert_eq!(extract_description(&ApiDescription::Doc(vec![])), None);
}

#[test]
fn test_extract_epic_value_shapes() {
    assert_eq!(
        extract_epic_value(Some(&ApiFieldValue::Text("E-1".to_string()))),
        Some("E-1".to_string())
    );
    assert_eq!(
        extract_epic_value(Some(&ApiFieldValue::Object {
            key: Some("E-2".to_string()),
            name: Some("ignored".to_string()),
        })),
        Some("E-2".to_string())
    );
    assert_eq!(
        extract_epic_value(Some(&ApiFieldValue::Object {
            key: None,
            name: Some("Epic name".to_string()),
        })),
        Some("Epic name".to_string())
    );
    assert_eq!(extract_epic_value(Some(&ApiFieldValue::Other)), None);
    assert_eq!(extract_epic_value(None), None);
}

#[test]
fn test_board_configuration_conversion() {
    let resp = ApiBoardConfigResponse {
        column_config: Some(ApiColumnConfig {
            columns: vec![ApiColumn {
                name: "To Do".to_string(),
                statuses: vec![
                    ApiStatusRef { id: "1".to_string(), name: "".to_string() },
                    ApiStatusRef { id: "2".to_string(), name: "Open".to_string() },
                ],
            }],
        }),
    };
    let config = resp.into_configuration();
    assert_eq!(config.columns.len(), 1);
    assert_eq!(config.columns[0].name, "To Do");
    // An empty status name falls back to the id.
    assert_eq!(config.columns[0].statuses[0].name, "1");
    assert_eq!(config.columns[0].statuses[1].name, "Open");

    let none = ApiBoardConfigResponse { column_config: None }.into_configuration();
    assert!(none.columns.is_empty());
}
