use codex_runtime::backend_skills::catalog::catalog_entry_from_resource;
use codex_runtime::backend_skills::catalog::validated_skill_uri;
use codex_runtime::backend_skills::catalog::BackendResource;
use codex_runtime::backend_skills::catalog::SkillAuthority;
use codex_runtime::backend_skills::catalog::SkillMeta;
use codex_runtime::backend_skills::catalog::SkillSourceKind;
use codex_runtime::backend_skills::listing::empty_catalog;
use codex_runtime::backend_skills::listing::list_error;
use codex_runtime::backend_skills::listing::BackendSkillProvider;
use codex_runtime::backend_skills::listing::SkillCatalog;
use codex_runtime::backend_skills::listing::SkillListing;
use codex_runtime::backend_skills::reading::check_read_request;
use codex_runtime::backend_skills::reading::read_error;
use codex_runtime::backend_skills::reading::read_result;
use codex_runtime::backend_skills::reading::ResourceContent;
use codex_runtime::backend_skills::reading::SkillReadRequest;

fn resource(uri: &str) -> BackendResource {
    BackendResource {
        uri: uri.to_string(),
        mime_type: Some("mcp/skill".to_string()),
        description: Some(" Does <this> &\n that ".to_string()),
        meta: Some(SkillMeta {
            skill_name: Some("skill".to_string()),
            plugin_name: Some("plugin".to_string()),
            source: None,
        }),
    }
}

fn chars(text: &str) -> Vec<char> {
    text.chars().collect()
}

#[test]
fn resources_become_catalog_entries() {
    let entry = catalog_entry_from_resource(&resource("skill://a/b/"), "server").expect("entry");
    assert_eq!(entry.package, "skill://a/b/");
    assert_eq!(entry.name, "plugin:skill");
    assert_eq!(entry.description, "Does &lt;this&gt; &amp; that");
    assert_eq!(entry.main_prompt, "skill://a/b/SKILL.md");
    assert_eq!(entry.display_path, "skill://a/b/");
    assert_eq!(
        entry.authority,
        SkillAuthority { kind: SkillSourceKind::Remote, id: "server".to_string() }
    );
    let mut own = resource("skill://a");
    own.meta = Some(SkillMeta {
        skill_name: Some("skill".to_string()),
        plugin_name: None,
        source: Some("user".to_string()),
    });
    own.description = None;
    let entry = catalog_entry_from_resource(&own, "server").expect("entry");
    assert_eq!((entry.name.as_str(), entry.description.as_str()), ("skill", ""));
}

#[test]
fn malformed_resources_are_refused() {
    assert!(catalog_entry_from_resource(&resource("http://a"), "s").is_none());
    assert!(catalog_entry_from_resource(&resource("skill://"), "s").is_none());
    assert!(catalog_entry_from_resource(&resource("skill://a b"), "s").is_none());
    let mut bad = resource("skill://a");
    bad.meta = None;
    assert!(catalog_entry_from_resource(&bad, "s").is_none());
    let mut bad = resource("skill://a");
    bad.meta.as_mut().expect("meta").skill_name = Some("a<b".to_string());
    assert!(catalog_entry_from_resource(&bad, "s").is_none());
    let mut bad = resource("skill://a");
    bad.meta.as_mut().expect("meta").skill_name = Some("x".repeat(65));
    assert!(catalog_entry_from_resource(&bad, "s").is_none());
    let mut bad = resource("skill://a");
    bad.meta.as_mut().expect("meta").plugin_name = None;
    assert!(catalog_entry_from_resource(&bad, "s").is_none());
    let mut bad = resource("skill://a");
    bad.description = Some("x".repeat(1_025));
    assert!(catalog_entry_from_resource(&bad, "s").is_none());
    let mut long = resource("skill://a");
    long.meta = Some(SkillMeta {
        skill_name: Some("x".repeat(64)),
        plugin_name: Some("y".repeat(64)),
        source: None,
    });
    assert!(catalog_entry_from_resource(&long, "s").is_none());
    assert!(validated_skill_uri(&chars(&format!("skill://{}", "x".repeat(1_016)))));
    assert!(!validated_skill_uri(&chars(&format!("skill://{}", "x".repeat(1_017)))));
}

fn list(pages: Vec<(Vec<BackendResource>, Option<&str>)>) -> SkillCatalog {
    let provider = BackendSkillProvider::new("server".to_string());
    let mut listing = SkillListing::new(&provider);
    let mut pages = pages.into_iter();
    while listing.next_page().is_some() {
        let (resources, cursor) = pages.next().expect("page");
        listing.page_received(&resources, cursor.map(str::to_string));
    }
    listing.finish()
}

#[test]
fn listing_follows_the_pages() {
    let mut other = resource("skill://c");
    other.mime_type = Some("text/plain".to_string());
    let catalog = list(vec![
        (vec![resource("skill://a"), other], Some("2")),
        (vec![resource("skill://b")], None),
    ]);
    let packages: Vec<&str> = catalog.entries.iter().map(|entry| entry.package.as_str()).collect();
    assert_eq!(packages, vec!["skill://a", "skill://b"]);
    assert_eq!(catalog.warnings, Vec::<String>::new());
    assert_eq!(empty_catalog().entries.len(), 0);
}

#[test]
fn repeated_cursors_end_the_listing() {
    let catalog = list(vec![
        (vec![resource("skill://a")], Some("2")),
        (vec![resource("bad")], Some("2")),
    ]);
    assert_eq!(catalog.entries.len(), 1);
    assert_eq!(
        catalog.warnings,
        vec![
            "Backend skill resource pagination from server returned a duplicate cursor.".to_string(),
            "Skipped 1 malformed backend skill resources from server.".to_string(),
        ]
    );
}

#[test]
fn the_listing_is_bounded() {
    let truncated =
        "Backend skill discovery from server was truncated at 100 skills or 10 resource pages.";
    let many: Vec<BackendResource> = (0..101).map(|i| resource(&format!("skill://{i}"))).collect();
    let catalog = list(vec![(many, None)]);
    assert_eq!(catalog.entries.len(), 100);
    assert_eq!(catalog.warnings, vec![truncated.to_string()]);

    let cursors: Vec<String> = (0..10).map(|i| i.to_string()).collect();
    let pages = cursors
        .iter()
        .enumerate()
        .map(|(i, cursor)| (vec![resource(&format!("skill://{i}"))], Some(cursor.as_str())))
        .collect();
    let catalog = list(pages);
    assert_eq!(catalog.entries.len(), 10);
    assert_eq!(catalog.warnings, vec![truncated.to_string()]);
}

#[test]
fn a_listed_skill_can_be_read() {
    let provider = BackendSkillProvider::new("server".to_string());
    let entry = catalog_entry_from_resource(&resource("skill://a"), "server").expect("entry");
    let request = SkillReadRequest {
        authority: entry.authority.clone(),
        package: entry.package.clone(),
        resource: entry.main_prompt.clone(),
    };
    assert_eq!(check_read_request(&provider, &request, true), Ok(()));
    let contents = vec![
        ResourceContent::Blob,
        ResourceContent::Text { uri: "skill://x".to_string(), text: "no".to_string() },
        ResourceContent::Text { uri: "skill://a/SKILL.md".to_string(), text: "yes".to_string() },
    ];
    assert_eq!(read_result(&request, &contents).expect("contents").contents, "yes");
    assert_eq!(
        read_result(&request, &vec![]).expect_err("nothing").message,
        "backend skill resource skill://a/SKILL.md did not return matching text contents"
    );
    assert_eq!(
        read_error(&request, "gone").message,
        "failed to read backend skill resource skill://a/SKILL.md: gone"
    );
    assert_eq!(
        list_error(&provider, "gone").message,
        "failed to list backend skill resources from server: gone"
    );
}

#[test]
fn foreign_requests_are_refused() {
    let provider = BackendSkillProvider::new("server".to_string());
    let request = |kind: SkillSourceKind, id: &str, resource: &str| SkillReadRequest {
        authority: SkillAuthority { kind, id: id.to_string() },
        package: "skill://a".to_string(),
        resource: resource.to_string(),
    };
    let refused = |request: SkillReadRequest, connected: bool| {
        check_read_request(&provider, &request, connected).expect_err("refused").message
    };
    let own = "skill://a/SKILL.md";
    assert_eq!(
        refused(request(SkillSourceKind::Remote, "other", own), true),
        "backend skill provider cannot read authority other"
    );
    assert_eq!(
        refused(request(SkillSourceKind::Other, "server", own), true),
        "backend skill provider cannot read authority server"
    );
    assert_eq!(
        refused(request(SkillSourceKind::Remote, "server", "skill://b/SKILL.md"), true),
        "backend skill resource does not match its package"
    );
    assert_eq!(
        refused(request(SkillSourceKind::Remote, "server", own), false),
        "session MCP resource client is not configured"
    );
}
