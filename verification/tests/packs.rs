use kitowall_bridge::json::parse;
use kitowall_bridge::keys::{source_key, KeyRequest, SourceKey};
use kitowall_bridge::packs::{pack_exists, PackRequest, Upsert};

fn text(s: &str) -> Option<String> {
    Some(s.to_string())
}

fn strings(items: &[&str]) -> Vec<String> {
    items.iter().map(|s| s.to_string()).collect()
}

fn listing() -> kitowall_bridge::json::Json {
    parse(
        "{\"packs\": {
            \"sea\": {\"type\": \"wallhaven\", \"apiKey\": \"abc\"},
            \"city\": {\"type\": \"unsplash\", \"apiKeyEnv\": \"UNSPLASH_KEY\"},
            \"art\": {\"type\": \"wallhaven\", \"apiKeyEnv\": \"W\"},
            \"mine\": {\"type\": \"local\", \"paths\": [\"/w\"]},
            \"odd\": {}
        }}",
    )
    .unwrap()
}

fn wallhaven(name: &str, keyword: &str) -> PackRequest {
    PackRequest::Wallhaven {
        name: name.to_string(),
        keyword: keyword.to_string(),
        subthemes: None,
        api_key: None,
        categories: None,
        purity: None,
        ratios: None,
        colors: None,
        atleast: None,
        sorting: None,
        ai_art: None,
        allow_sfw: None,
        allow_sketchy: None,
        allow_nsfw: None,
        category_general: None,
        category_anime: None,
        category_people: None,
        ttl_sec: None,
    }
}

#[test]
fn listing_tells_which_packs_exist() {
    assert!(pack_exists(&listing(), "sea"));
    assert!(pack_exists(&listing(), "odd"));
    assert!(!pack_exists(&listing(), "Sea"));
    assert!(!pack_exists(&listing(), "packs"));
    assert!(!pack_exists(&parse("{}").unwrap(), "sea"));
    assert!(!pack_exists(&parse("{\"packs\": [\"sea\"]}").unwrap(), "sea"));
    assert!(!pack_exists(&parse("\"sea\"").unwrap(), "sea"));
}

#[test]
fn wallhaven_pack_is_added_with_its_keyword() {
    assert_eq!(
        wallhaven(" forest ", " trees ").plan(&listing()),
        Ok(Upsert {
            name: "forest".to_string(),
            action: "add".to_string(),
            source: "wallhaven".to_string(),
            args: strings(&["pack", "add", "forest", "--type", "wallhaven", "--keyword", "trees"]),
            key_args: None,
        })
    );
}

#[test]
fn wallhaven_pack_that_exists_is_updated_with_every_flag() {
    let req = PackRequest::Wallhaven {
        name: "sea".to_string(),
        keyword: "ocean".to_string(),
        subthemes: text(" waves, storm "),
        api_key: text(" secret "),
        categories: text("111"),
        purity: text("100"),
        ratios: text("16x9"),
        colors: text("  "),
        atleast: text("1920x1080"),
        sorting: text("toplist"),
        ai_art: Some(false),
        allow_sfw: Some(true),
        allow_sketchy: Some(false),
        allow_nsfw: None,
        category_general: Some(true),
        category_anime: Some(false),
        category_people: Some(true),
        ttl_sec: Some(3600),
    };
    let upsert = req.plan(&listing()).unwrap();
    assert_eq!(upsert.name, "sea");
    assert_eq!(upsert.action, "update");
    assert_eq!(upsert.source, "wallhaven");
    assert_eq!(
        upsert.args,
        vec![
            "pack",
            "update",
            "sea",
            "--type",
            "wallhaven",
            "--keyword",
            "ocean",
            "--subthemes",
            "waves, storm",
            "--categories",
            "111",
            "--purity",
            "100",
            "--ratios",
            "16x9",
            "--atleast",
            "1920x1080",
            "--sorting",
            "toplist",
            "--ai-art",
            "false",
            "--allow-sfw",
            "true",
            "--allow-sketchy",
            "false",
            "--category-general",
            "true",
            "--category-anime",
            "false",
            "--category-people",
            "true",
            "--ttl-sec",
            "3600"
        ]
    );
    assert_eq!(upsert.key_args, Some(strings(&["pack", "set-key", "sea", "--api-key", "secret"])));
}

#[test]
fn requests_say_what_they_lack() {
    assert_eq!(wallhaven(" ", "x").check(), Err("name and keyword are required".to_string()));
    assert_eq!(wallhaven("x", "").check(), Err("name and keyword are required".to_string()));
    assert_eq!(wallhaven("x", "y").check(), Ok(()));
    assert_eq!(
        wallhaven("", "").plan(&listing()),
        Err("name and keyword are required".to_string())
    );
    let unsplash = PackRequest::Unsplash {
        name: "a".to_string(),
        query: " ".to_string(),
        subthemes: None,
        api_key: None,
        orientation: None,
        content_filter: None,
        topics: None,
        collections: None,
        username: None,
        image_width: None,
        image_height: None,
        image_fit: None,
        image_quality: None,
        ttl_sec: None,
    };
    assert_eq!(unsplash.check(), Err("name and query are required".to_string()));
    let reddit = |name: &str, subs: Option<&str>| PackRequest::Reddit {
        name: name.to_string(),
        subreddits: subs.map(|s| s.to_string()),
        subthemes: None,
        allow_sfw: None,
        min_width: None,
        min_height: None,
        ratio_w: None,
        ratio_h: None,
        ttl_sec: None,
    };
    assert_eq!(reddit("", Some("pics")).check(), Err("name is required".to_string()));
    assert_eq!(reddit("a", None).check(), Err("subreddits is required".to_string()));
    assert_eq!(reddit("a", Some(" ")).check(), Err("subreddits is required".to_string()));
    let generic = |endpoint: &str, image_path: &str| PackRequest::GenericJson {
        name: "a".to_string(),
        endpoint: endpoint.to_string(),
        image_path: image_path.to_string(),
        image_prefix: None,
        post_path: None,
        post_prefix: None,
        author_name_path: None,
        author_url_path: None,
        author_url_prefix: None,
        domain: None,
        ttl_sec: None,
    };
    assert_eq!(
        generic("", "$.url").check(),
        Err("name, endpoint and imagePath are required".to_string())
    );
    assert_eq!(
        generic("https://x", " ").check(),
        Err("name, endpoint and imagePath are required".to_string())
    );
    let fixed = |name: &str, url: Option<&str>, urls: Option<&str>| PackRequest::StaticUrl {
        name: name.to_string(),
        url: url.map(|s| s.to_string()),
        urls: urls.map(|s| s.to_string()),
        author_name: None,
        author_url: None,
        domain: None,
        post_url: None,
        different_images: None,
        count: None,
        ttl_sec: None,
    };
    assert_eq!(fixed(" ", Some("u"), None).check(), Err("name is required".to_string()));
    assert_eq!(fixed("a", None, Some(" ")).check(), Err("url or urls is required".to_string()));
    assert_eq!(fixed("a", None, Some("u1,u2")).check(), Ok(()));
    let local = |name: &str, paths: &str| PackRequest::Local {
        name: name.to_string(),
        paths: paths.to_string(),
    };
    assert_eq!(local("", "/w").check(), Err("name is required".to_string()));
    assert_eq!(local("a", " ").check(), Err("paths is required".to_string()));
}

#[test]
fn unsplash_pack_takes_sizes_and_a_key() {
    let req = PackRequest::Unsplash {
        name: "city".to_string(),
        query: " skyline ".to_string(),
        subthemes: None,
        api_key: text("  "),
        orientation: text("landscape"),
        content_filter: text("high"),
        topics: None,
        collections: text("1,2"),
        username: text(" me "),
        image_width: Some(1920),
        image_height: Some(1080),
        image_fit: text("crop"),
        image_quality: Some(80),
        ttl_sec: Some(60),
    };
    let upsert = req.plan(&listing()).unwrap();
    assert_eq!(
        upsert.args,
        vec![
            "pack",
            "update",
            "city",
            "--type",
            "unsplash",
            "--query",
            "skyline",
            "--orientation",
            "landscape",
            "--content-filter",
            "high",
            "--collections",
            "1,2",
            "--username",
            "me",
            "--image-width",
            "1920",
            "--image-height",
            "1080",
            "--image-fit",
            "crop",
            "--image-quality",
            "80",
            "--ttl-sec",
            "60"
        ]
    );
    assert_eq!(upsert.key_args, None);
}

#[test]
fn reddit_pack_takes_its_subreddits() {
    let req = PackRequest::Reddit {
        name: "r".to_string(),
        subreddits: text(" wallpapers+earthporn "),
        subthemes: text("night"),
        allow_sfw: Some(true),
        min_width: Some(1920),
        min_height: None,
        ratio_w: Some(16),
        ratio_h: Some(9),
        ttl_sec: None,
    };
    assert_eq!(
        req.plan(&listing()).unwrap().args,
        vec![
            "pack",
            "add",
            "r",
            "--type",
            "reddit",
            "--subreddits",
            "wallpapers+earthporn",
            "--subthemes",
            "night",
            "--allow-sfw",
            "true",
            "--min-width",
            "1920",
            "--ratio-w",
            "16",
            "--ratio-h",
            "9"
        ]
    );
}

#[test]
fn generic_pack_takes_its_endpoint() {
    let req = PackRequest::GenericJson {
        name: "g".to_string(),
        endpoint: " https://api.example/x ".to_string(),
        image_path: "$.items[*].url".to_string(),
        image_prefix: text("https://img.example/"),
        post_path: None,
        post_prefix: None,
        author_name_path: text("$.by"),
        author_url_path: None,
        author_url_prefix: None,
        domain: text("example"),
        ttl_sec: Some(5),
    };
    assert_eq!(
        req.plan(&listing()).unwrap().args,
        vec![
            "pack",
            "add",
            "g",
            "--type",
            "generic_json",
            "--endpoint",
            "https://api.example/x",
            "--image-path",
            "$.items[*].url",
            "--image-prefix",
            "https://img.example/",
            "--author-name-path",
            "$.by",
            "--domain",
            "example",
            "--ttl-sec",
            "5"
        ]
    );
}

#[test]
fn static_pack_takes_one_address_or_several() {
    let req = PackRequest::StaticUrl {
        name: "s".to_string(),
        url: text(" https://x/a.png "),
        urls: None,
        author_name: text("me"),
        author_url: None,
        domain: None,
        post_url: text("https://x/post"),
        different_images: Some(true),
        count: Some(3),
        ttl_sec: None,
    };
    assert_eq!(
        req.plan(&listing()).unwrap().args,
        vec![
            "pack",
            "add",
            "s",
            "--type",
            "static_url",
            "--url",
            "https://x/a.png",
            "--author-name",
            "me",
            "--post-url",
            "https://x/post",
            "--different-images",
            "true",
            "--count",
            "3"
        ]
    );
}

#[test]
fn local_pack_takes_its_paths() {
    let req = PackRequest::Local { name: " mine ".to_string(), paths: " /a,/b ".to_string() };
    assert_eq!(
        req.plan(&listing()),
        Ok(Upsert {
            name: "mine".to_string(),
            action: "update".to_string(),
            source: "local".to_string(),
            args: strings(&["pack", "update", "mine", "--type", "local", "--paths", "/a,/b"]),
            key_args: None,
        })
    );
}

#[test]
fn source_key_is_that_of_the_first_pack_of_the_source() {
    assert_eq!(
        source_key(&listing(), "wallhaven"),
        SourceKey { value: None, api_key_env: text("W"), pack: text("art") }
    );
    assert_eq!(
        source_key(&listing(), "unsplash"),
        SourceKey { value: None, api_key_env: text("UNSPLASH_KEY"), pack: text("city") }
    );
    assert_eq!(
        source_key(&listing(), "reddit"),
        SourceKey { value: None, api_key_env: None, pack: None }
    );
    assert_eq!(
        source_key(&parse("{}").unwrap(), "wallhaven"),
        SourceKey { value: None, api_key_env: None, pack: None }
    );
    let keyed = parse("{\"packs\": {\"a\": {\"type\": \"wallhaven\", \"apiKey\": \"k\"}}}").unwrap();
    assert_eq!(
        source_key(&keyed, "wallhaven"),
        SourceKey { value: text("k"), api_key_env: None, pack: text("a") }
    );
}

#[test]
fn key_request_needs_something_to_store() {
    let empty = KeyRequest {
        wallhaven_key: text("  "),
        unsplash_key: None,
        wallhaven_env: text("W"),
        unsplash_env: None,
        use_env: Some(false),
    };
    assert_eq!(empty.check(), Err("No API key provided".to_string()));
    assert_eq!(empty.plan(&listing()), Err("No API key provided".to_string()));
    let none = KeyRequest {
        wallhaven_key: None,
        unsplash_key: None,
        wallhaven_env: None,
        unsplash_env: None,
        use_env: None,
    };
    assert_eq!(none.check(), Err("No API key provided".to_string()));
}

#[test]
fn keys_are_stored_in_every_pack_of_their_source() {
    let req = KeyRequest {
        wallhaven_key: text(" wkey "),
        unsplash_key: None,
        wallhaven_env: None,
        unsplash_env: None,
        use_env: None,
    };
    let plan = req.plan(&listing()).unwrap();
    assert_eq!(
        plan.commands,
        vec![
            strings(&["pack", "set-key", "art", "--api-key", "wkey"]),
            strings(&["pack", "set-key", "sea", "--api-key", "wkey"]),
        ]
    );
    assert_eq!(plan.wallhaven, vec!["art", "sea"]);
    assert_eq!(plan.unsplash, vec!["city"]);
}

#[test]
fn variables_are_stored_when_asked_for() {
    let req = KeyRequest {
        wallhaven_key: None,
        unsplash_key: text("ignored"),
        wallhaven_env: None,
        unsplash_env: text(" MY_UNSPLASH "),
        use_env: Some(true),
    };
    let plan = req.plan(&listing()).unwrap();
    assert_eq!(
        plan.commands,
        vec![
            strings(&["pack", "set-key", "art", "--api-key-env", "WALLHAVEN_KEY"]),
            strings(&["pack", "set-key", "city", "--api-key-env", "MY_UNSPLASH"]),
            strings(&["pack", "set-key", "sea", "--api-key-env", "WALLHAVEN_KEY"]),
        ]
    );
    assert_eq!(plan.wallhaven, vec!["art", "sea"]);
    assert_eq!(plan.unsplash, vec!["city"]);
    let without = req.plan(&parse("[]").unwrap()).unwrap();
    assert!(without.commands.is_empty() && without.wallhaven.is_empty() && without.unsplash.is_empty());
}
