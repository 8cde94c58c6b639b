use fckn_gay::dns::record::{Record, RecordType};
use fckn_gay::random::generate_random_password;
use fckn_gay::server::migrate::{
    confirms, group_by_user, grouping_summary, new_user_email, orphaned_users, prompt_answer, str_less, sync_plan,
    MigrationStats,
};
use fckn_gay::user_database::{DatabaseDnsRecord, DnsRecordId, PasswordHash, UserEntry, UserState};

fn record(name: &str) -> Record {
    Record {
        name: name.to_string(),
        record_type: RecordType::A,
        content: "1.2.3.4".to_string(),
        ttl_seconds: 600,
        priority: None,
    }
}

fn upstream(key: &str, name: &str) -> (String, Record) {
    (key.to_string(), record(name))
}

fn user(name: &str) -> UserEntry {
    UserEntry {
        id: 1,
        username: name.to_string(),
        password_hash: PasswordHash::from_raw("x".to_string()),
        email: "e@x".to_string(),
        state: UserState::Active,
        created_at: 0,
        last_login: None,
    }
}

#[test]
fn random_password_is_32_chars() {
    let pw = generate_random_password().unwrap();
    assert_eq!(pw.len(), 32);
    assert!(pw.is_ascii());
}

#[test]
fn grouping_sorts_users_and_counts_strays() {
    let records = vec![
        upstream("1", "www.carol.is.fckn.gay"),
        upstream("2", "alice.is.fckn.gay"),
        upstream("3", "other.domain"),
        upstream("4", "carol.is.fckn.gay"),
        upstream("5", "*.is.fckn.gay"),
    ];
    let g = group_by_user(&records, ".is.fckn.gay");
    let names: Vec<&str> = g.groups.iter().map(|(n, _)| n.as_str()).collect();
    assert_eq!(names, vec!["alice", "carol"]);
    assert_eq!(g.groups[1].1.len(), 2);
    assert_eq!(g.groups[1].1[0].0, "1");
    assert_eq!(g.groups[1].1[1].0, "4");
    assert_eq!(g.skipped, 2);
}

#[test]
fn sync_plan_imports_missing_and_deletes_gone() {
    let ups = vec![upstream("k1", "alice.is.fckn.gay"), upstream("k2", "www.alice.is.fckn.gay")];
    let db = vec![
        DatabaseDnsRecord { id: DnsRecordId(1), provider_key: "k1".to_string(), record: record("alice.is.fckn.gay") },
        DatabaseDnsRecord { id: DnsRecordId(2), provider_key: "k9".to_string(), record: record("old.alice.is.fckn.gay") },
    ];
    let plan = sync_plan(&ups, &db);
    assert_eq!(plan.import.len(), 1);
    assert_eq!(plan.import[0].0, "k2");
    assert_eq!(plan.already_synced, 1);
    assert_eq!(plan.delete.len(), 1);
    assert_eq!(plan.delete[0].id, DnsRecordId(2));
}

#[test]
fn orphans_are_users_without_upstream_records() {
    let users = vec![user("alice"), user("bob"), user("carol")];
    let names = vec!["carol".to_string(), "alice".to_string()];
    let orphans = orphaned_users(&users, &names);
    assert_eq!(orphans.len(), 1);
    assert_eq!(orphans[0].username, "bob");
}

#[test]
fn prompts_and_confirmation() {
    assert!(confirms("y"));
    assert!(confirms("  Y \n"));
    assert!(!confirms("yes"));
    assert!(!confirms(""));
    assert_eq!(prompt_answer("  me@x.org \n"), Some("me@x.org".to_string()));
    assert_eq!(prompt_answer("   \n"), None);
    assert_eq!(new_user_email(None), "im@fckn.gay");
    assert_eq!(new_user_email(Some("a@b".to_string())), "a@b");
}

#[test]
fn names_order_like_strings() {
    assert!(str_less("alice", "bob"));
    assert!(str_less("al", "alice"));
    assert!(!str_less("bob", "bob"));
    assert!(!str_less("bob", "alice"));
}

#[test]
fn migration_summary_lines() {
    let mut stats = MigrationStats::new();
    stats.users_created = 2;
    stats.records_imported = 5;
    let lines = stats.summary(true);
    assert_eq!(lines[0], "\n========== dry run summary ==========");
    assert_eq!(lines[1], "  users to create:         2");
    assert_eq!(lines[3], "  records to import:       5");
    assert_eq!(lines[5], "  records already synced:  0");
    assert_eq!(lines[6], "========================================");
    let lines = stats.summary(false);
    assert_eq!(lines[0], "\n========== migration summary ==========");
    assert_eq!(lines[1], "  users created:           2");
}

#[test]
fn grouping_summary_mentions_counts() {
    let records = vec![upstream("1", "alice.is.fckn.gay"), upstream("2", "x.y")];
    let g = group_by_user(&records, ".is.fckn.gay");
    let s = grouping_summary(&g, 2, ".is.fckn.gay");
    assert_eq!(s, "   1 users with 1 records match suffix '.is.fckn.gay' (1 records skipped)");
}
