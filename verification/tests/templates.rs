use coding_env::models::template::Templates;
use coding_env::services::template_service::{TemplateError, TemplateService};

const README_TEMPLATE: &str = r#"<?xml version="1.0" encoding="UTF-8"?>
<template>
    <description>A template for Rust API projects</description>
    <steps>
        <step>Initialize Cargo project</step>
        <step>Set up basic dependencies (tokio, axum, serde)</step>
        <step>Create project structure</step>
        <step>Implement health check endpoint</step>
        <step>Add error handling middleware</step>
    </steps>
</template>"#;

#[test]
fn extracts_description_and_steps() {
    let (d, steps) = TemplateService::extract_from_xml(README_TEMPLATE);
    assert_eq!(d, "A template for Rust API projects");
    assert_eq!(
        steps,
        vec![
            "Initialize Cargo project".to_string(),
            "Set up basic dependencies (tokio, axum, serde)".to_string(),
            "Create project structure".to_string(),
            "Implement health check endpoint".to_string(),
            "Add error handling middleware".to_string(),
        ]
    );
}

#[test]
fn steps_are_trimmed_and_empty_ones_dropped() {
    let (d, steps) = TemplateService::extract_from_xml("<step>  a  </step><step>   </step><step>\n b\t</step>");
    assert_eq!(d, "");
    assert_eq!(steps, vec!["a".to_string(), "b".to_string()]);
}

#[test]
fn unclosed_step_ends_the_list() {
    let (_, steps) = TemplateService::extract_from_xml("<step>a</step><step>b<step>c</step>");
    assert_eq!(steps, vec!["a".to_string(), "b<step>c".to_string()]);
    let (_, steps) = TemplateService::extract_from_xml("<step>a</step><step>never closed");
    assert_eq!(steps, vec!["a".to_string()]);
}

#[test]
fn description_needs_both_tags() {
    let (d, _) = TemplateService::extract_from_xml("<description>only open");
    assert_eq!(d, "");
    let (d, _) = TemplateService::extract_from_xml("only close</description>");
    assert_eq!(d, "");
    let (d, _) = TemplateService::extract_from_xml("<description>\u{a0} ü \n</description>");
    assert_eq!(d, "ü");
}

#[test]
fn description_out_of_order_is_detected() {
    assert!(!TemplateService::description_readable("</description><description>"));
    assert!(TemplateService::description_readable("<description></description>"));
    assert!(TemplateService::description_readable("no tags"));
}

#[test]
fn create_template_derives_id_and_stores() {
    let mut templates = Templates::new();
    let t = TemplateService::create_template(&mut templates, "Rust API", README_TEMPLATE);
    assert_eq!(t.id, "rust-api");
    assert_eq!(t.name, "Rust API");
    assert_eq!(t.description, "A template for Rust API projects");
    assert_eq!(t.content.steps.len(), 5);
    assert_eq!(TemplateService::get_template(&templates, "rust-api").ok().unwrap().name, "Rust API");
    assert_eq!(TemplateService::list_templates(&templates).len(), 1);
    let u = TemplateService::create_template(&mut templates, "Web  App X", "");
    assert_eq!(u.id, "web--app-x");
    assert_eq!(TemplateService::template_id_from_lowercase("a b c"), "a-b-c");
}

#[test]
fn delete_template_then_lookup_fails() {
    let mut templates = Templates::new();
    TemplateService::create_template(&mut templates, "T", "<step>x</step>");
    assert!(TemplateService::delete_template(&mut templates, "t").is_ok());
    match TemplateService::get_template(&templates, "t") {
        Err(TemplateError::NotFound(e)) => assert_eq!(e, "t"),
        _ => panic!("deleted template found"),
    }
    assert!(matches!(TemplateService::delete_template(&mut templates, "t"), Err(TemplateError::NotFound(_))));
    assert!(templates.remove_template("t").is_none());
}

#[test]
fn create_from_given_lowercase() {
    let mut templates = Templates::new();
    let t = TemplateService::create_template_from_lowercase(&mut templates, "my fancy name", "My Fancy Name", "<description>d</description>");
    assert_eq!(t.id, "my-fancy-name");
    assert_eq!(t.name, "My Fancy Name");
    assert_eq!(t.description, "d");
}
