use webshell::port_forward::{is_portforward, plan_forward, plan_from_captures, portforward_location, ForwardError, ForwardPlan};

fn forward(port: &str, host: &str, referer: &str, uri: &str) -> ForwardPlan {
    ForwardPlan::Forward {
        port: port.to_string(),
        host: host.to_string(),
        referer: referer.to_string(),
        uri: uri.to_string(),
    }
}

#[test]
fn recognises_forwarded_addresses() {
    assert_eq!(is_portforward("/portforward/8080/"), Some(true));
    assert_eq!(is_portforward("http://host:3012/ide/portforward/3000/index.html"), Some(true));
    assert_eq!(is_portforward("/portforward/8080"), Some(true));
    assert_eq!(is_portforward("/portforward/abc/"), Some(false));
    assert_eq!(is_portforward("/ws"), Some(false));
}

#[test]
fn forwarded_address_without_referer() {
    assert_eq!(
        plan_forward("/portforward/8080/index.html", None, true),
        Ok(forward("8080", "localhost:8080", "http://localhost:8080/index.html", "http://localhost:8080/index.html"))
    );
}

#[test]
fn forwarded_address_with_referer() {
    assert_eq!(
        plan_forward("/portforward/3000/api/x", Some("http://ide.example/portforward/3000/"), false),
        Ok(forward("3000", "localhost:3000", "http://ide.example:3000/api/x", "http://localhost:3000/api/x"))
    );
}

#[test]
fn forwarded_address_without_path_cannot_be_routed() {
    assert_eq!(plan_forward("/portforward/8080", None, true), Err(ForwardError::NoPath));
    assert_eq!(plan_forward("/portforward/8080?a=1", None, true), Err(ForwardError::NoPath));
}

#[test]
fn resource_of_a_forwarded_page() {
    let referer = Some("http://ide.example/portforward/5000/page");
    assert_eq!(
        plan_forward("/app.js", referer, true),
        Ok(ForwardPlan::Redirect { location: "/portforward/5000/app.js".to_string() })
    );
    assert_eq!(
        plan_forward("/api", referer, false),
        Ok(forward("5000", "localhost:5000", "http://ide.example:5000/api", "http://localhost:5000/api"))
    );
    assert_eq!(plan_forward("/app.js", None, true), Err(ForwardError::MissingReferer));
    assert_eq!(plan_forward("/app.js", Some("http://ide.example/"), true), Err(ForwardError::RefererNotForwarded));
    assert_eq!(
        plan_forward("/portforward/1/x", Some("http://ide.example/"), true),
        Err(ForwardError::RefererNotForwarded)
    );
}

#[test]
fn plan_from_given_groups() {
    let caps = Some(vec![Some("/portforward/1/x".to_string()), Some("".to_string()), Some("1".to_string()), Some("/x".to_string())]);
    assert_eq!(
        plan_from_captures("/portforward/1/x", &caps, &None, true),
        Ok(forward("1", "localhost:1", "http://localhost:1/x", "http://localhost:1/x"))
    );
    assert_eq!(plan_from_captures("/x", &None, &None, true), Err(ForwardError::MissingReferer));
    assert_eq!(plan_from_captures("/x", &None, &Some(None), true), Err(ForwardError::RefererNotForwarded));
    let short = Some(vec![Some("a".to_string())]);
    assert_eq!(plan_from_captures("/x", &short, &None, true), Err(ForwardError::NoPath));
}

#[test]
fn locations_are_rewritten_under_the_prefix() {
    assert_eq!(portforward_location("8080", "/login"), "/portforward/8080/login");
    assert_eq!(portforward_location("1", ""), "/portforward/1");
}
