use zy::cache::CacheDirective;
use zy::cache::CachePolicy;
use zy::cache::cache_directives;
use zy::cache::cache_policy_for_extension;
use zy::cache::classify;

fn policy(ext: &str) -> CachePolicy {
    cache_policy_for_extension(&Some(ext.to_string()))
}

#[test]
fn html_is_never_cached() {
    assert_eq!(policy("html"), CachePolicy::NoCache);
}

#[test]
fn scripts_styles_images_fonts_are_cached() {
    assert_eq!(policy("js"), CachePolicy::ShouldCache);
    assert_eq!(policy("css"), CachePolicy::ShouldCache);
    assert_eq!(policy("png"), CachePolicy::ShouldCache);
    assert_eq!(policy("woff"), CachePolicy::ShouldCache);
    assert_eq!(policy("otf"), CachePolicy::ShouldCache);
}

#[test]
fn unknown_extension_is_undetermined() {
    assert_eq!(policy("zzzz"), CachePolicy::Undetermined);
}

#[test]
fn missing_extension_is_undetermined() {
    assert_eq!(cache_policy_for_extension(&None), CachePolicy::Undetermined);
}

#[test]
fn plain_text_is_cached() {
    assert_eq!(classify("text", "plain", "txt"), CachePolicy::ShouldCache);
}

#[test]
fn octet_stream_is_undetermined() {
    assert_eq!(classify("application", "octet-stream", ""), CachePolicy::Undetermined);
}

#[test]
fn font_extension_overrides_unknown_type() {
    assert_eq!(classify("application", "font-woff", "woff"), CachePolicy::ShouldCache);
}

#[test]
fn no_cache_directives() {
    assert_eq!(
        cache_directives(CachePolicy::NoCache, 3600),
        vec![CacheDirective::NoCache, CacheDirective::NoStore]
    );
}

#[test]
fn should_cache_directives_carry_max_age() {
    assert_eq!(
        cache_directives(CachePolicy::ShouldCache, 3600),
        vec![CacheDirective::Public, CacheDirective::MaxAge(3600)]
    );
}

#[test]
fn undetermined_emits_nothing() {
    assert_eq!(cache_directives(CachePolicy::Undetermined, 3600), Vec::new());
}
