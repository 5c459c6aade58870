use gdpack::fetch::{checkout_path, plan_checkout, remote_id_of, repo_path, CheckoutAction};
use gdpack::reference::{is_commit_hash_like, GitReference, Reference};
use gdpack::source::{GitHubRelease, Remote, Source};
use gdpack::version::{parse_tag, Version};

fn p(parts: &[&str]) -> Vec<String> {
    parts.iter().map(|s| s.to_string()).collect()
}

fn remote(s: &str) -> Remote {
    Remote::parse(s).expect("invalid url")
}

#[test]
fn refspecs_per_reference() {
    assert_eq!(Reference::refspecs(None), vec!["+HEAD:refs/remotes/origin/HEAD"]);
    assert_eq!(
        Reference::refspecs(Some(&Reference::Branch("main".into()))),
        vec!["+refs/heads/main:refs/remotes/origin/main"]
    );
    assert_eq!(
        Reference::refspecs(Some(&Reference::Tag("v1".into()))),
        vec!["+refs/tags/v1:refs/remotes/origin/tags/v1"]
    );
    assert_eq!(
        Reference::refspecs(Some(&Reference::Rev("refs/pull/1/head".into()))),
        vec!["+refs/pull/1/head:refs/pull/1/head"]
    );
    assert_eq!(
        Reference::refspecs(Some(&Reference::Rev("abc1234".into()))),
        vec!["+abc1234:refs/commit/abc1234"]
    );
    assert_eq!(
        Reference::refspecs(Some(&Reference::Rev("HEAD~1".into()))),
        vec!["+refs/heads/*:refs/remotes/origin/*", "+HEAD:refs/remotes/origin/HEAD"]
    );
}

#[test]
fn commit_hash_shapes() {
    assert!(is_commit_hash_like("0123abcDEF"));
    assert!(!is_commit_hash_like("abc123"));
    assert!(!is_commit_hash_like("abcdefg"));
}

#[test]
fn git_reference_revisions() {
    assert_eq!(GitReference::Default.rev(), "refs/remotes/origin/HEAD");
    assert_eq!(GitReference::Branch("dev".into()).rev(), "refs/remotes/origin/dev");
    assert_eq!(GitReference::Tag("v2".into()).rev(), "v2");
    assert_eq!(GitReference::Rev("abc".into()).rev(), "abc");
    assert_eq!(Reference::Tag("v2".into()).as_str(), "v2");
}

#[test]
fn remote_parts() {
    let r = remote("https://github.com/bitwes/Gut.git");
    assert_eq!(r.host(), Some("github.com".to_string()));
    assert_eq!(r.owner(), "bitwes");
    assert_eq!(r.name(), Some("Gut".to_string()));
    assert_eq!(remote("https://example.com/only").name(), None);
    assert_eq!(remote("https://github.com/a/b/").display(), "https://github.com/a/b");
    assert!(Remote::parse("not a url").is_none());
}

#[test]
fn cache_keys_are_normalized() {
    let r = remote("https://GitHub.com/BitWes/Gut.git");
    assert_eq!(remote_id_of(&r), Some("github_com_bitwes_gut".to_string()));
    assert_eq!(
        repo_path(&p(&["/", "cache"]), &r),
        Some(p(&["/", "cache", "git", "repo", "github_com_bitwes_gut"]))
    );
    assert_eq!(remote_id_of(&remote("file:///tmp/x/y")), None);
}

#[test]
fn fetching_one_commit_twice_reuses_the_checkout() {
    let r = remote("https://github.com/bitwes/Gut.git");
    let cache = p(&["/", "cache"]);
    let first = checkout_path(&cache, &r, "abc1234").unwrap();
    assert_eq!(first, p(&["/", "cache", "git", "checkout", "github_com_bitwes_gut", "abc1234"]));
    assert_eq!(plan_checkout(false), CheckoutAction::Create);
    let second = checkout_path(&cache, &r, "abc1234").unwrap();
    assert_eq!(first, second);
    assert_eq!(plan_checkout(true), CheckoutAction::Reuse);
}

#[test]
fn release_assets_are_named_and_placed() {
    let rel = GitHubRelease {
        repo: remote("https://github.com/owner/Tool.git"),
        tag: "v1.2.0".into(),
        asset: "{name}-{tag}.zip".into(),
    };
    assert_eq!(rel.get_asset_name(), "Tool-v1.2.0.zip");
    assert_eq!(
        rel.get_path(&p(&["/", "c"])),
        Some(p(&["/", "c", "asset", "github_com_owner_tool", "v1.2.0", "Tool-v1.2.0"]))
    );
    let plain = GitHubRelease { asset: "{repo}_{release}".into(), ..rel.clone() };
    assert_eq!(plain.get_asset_name(), "Tool_v1.2.0");
    assert!(GitHubRelease::needs_download(false));
    assert!(!GitHubRelease::needs_download(true));
}

#[test]
fn source_names() {
    let s = Source::Git(gdpack::source::GitSource {
        reference: None,
        repo: remote("https://github.com/o/Repo.git"),
    });
    assert_eq!(s.name(), Some("Repo".to_string()));
    assert_eq!(Source::Path { path: p(&["a", "lib"]) }.name(), Some("lib".to_string()));
}

#[test]
fn tags_read_as_versions() {
    assert_eq!(parse_tag("v1.2.3"), Some(Version::new(1, 2, 3)));
    assert_eq!(parse_tag("1.2.3"), Some(Version::new(1, 2, 3)));
    assert_eq!(parse_tag("release"), None);
    let v = Version::parse("1.0.0-beta.2").unwrap();
    assert_eq!(v.pre, "beta.2");
    assert!(v.precedes(&Version::new(1, 0, 0)));
    assert!(!Version::new(1, 2, 0).precedes(&Version::new(1, 2, 0)));
}
