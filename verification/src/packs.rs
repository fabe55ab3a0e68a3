//! Adding and changing packs: what a request must hold, whether the pack is
//! already there, and the commands that carry the request out.

use crate::args::{
    flag_bool, flag_number, flag_text, push_flag_bool, push_flag_number, push_flag_text, push_pair,
};
use crate::command::append_all;
use crate::json::{find_member, Json, JsonView};
use crate::text::{blank, is_blank, opt_view, trim, trimmed, views};
use vstd::prelude::*;

verus! {

/// A request to add a pack, or to change it if it is there already.
#[derive(Debug, PartialEq, Eq)]
pub enum PackRequest {
    Wallhaven {
        name: String,
        keyword: String,
        subthemes: Option<String>,
        api_key: Option<String>,
        categories: Option<String>,
        purity: Option<String>,
        ratios: Option<String>,
        colors: Option<String>,
        atleast: Option<String>,
        sorting: Option<String>,
        ai_art: Option<bool>,
        allow_sfw: Option<bool>,
        allow_sketchy: Option<bool>,
        allow_nsfw: Option<bool>,
        category_general: Option<bool>,
        category_anime: Option<bool>,
        category_people: Option<bool>,
        ttl_sec: Option<u32>,
    },
    Unsplash {
        name: String,
        query: String,
        subthemes: Option<String>,
        api_key: Option<String>,
        orientation: Option<String>,
        content_filter: Option<String>,
        topics: Option<String>,
        collections: Option<String>,
        username: Option<String>,
        image_width: Option<u32>,
        image_height: Option<u32>,
        image_fit: Option<String>,
        image_quality: Option<u32>,
        ttl_sec: Option<u32>,
    },
    Reddit {
        name: String,
        subreddits: Option<String>,
        subthemes: Option<String>,
        allow_sfw: Option<bool>,
        min_width: Option<u32>,
        min_height: Option<u32>,
        ratio_w: Option<u32>,
        ratio_h: Option<u32>,
        ttl_sec: Option<u32>,
    },
    GenericJson {
        name: String,
        endpoint: String,
        image_path: String,
        image_prefix: Option<String>,
        post_path: Option<String>,
        post_prefix: Option<String>,
        author_name_path: Option<String>,
        author_url_path: Option<String>,
        author_url_prefix: Option<String>,
        domain: Option<String>,
        ttl_sec: Option<u32>,
    },
    StaticUrl {
        name: String,
        url: Option<String>,
        urls: Option<String>,
        author_name: Option<String>,
        author_url: Option<String>,
        domain: Option<String>,
        post_url: Option<String>,
        different_images: Option<bool>,
        count: Option<u32>,
        ttl_sec: Option<u32>,
    },
    Local { name: String, paths: String },
}

/// Whether an optional text is missing or blank.
pub open spec fn absent(value: Option<Seq<char>>) -> bool {
    match value {
        Some(v) => is_blank(v),
        None => true,
    }
}

impl PackRequest {
    /// The name of the pack, as given.
    pub open spec fn given_name(self) -> Seq<char> {
        match self {
            PackRequest::Wallhaven { name, .. } => name@,
            PackRequest::Unsplash { name, .. } => name@,
            PackRequest::Reddit { name, .. } => name@,
            PackRequest::GenericJson { name, .. } => name@,
            PackRequest::StaticUrl { name, .. } => name@,
            PackRequest::Local { name, .. } => name@,
        }
    }

    /// The name of the pack: the one given, without the white space around
    /// it.
    pub open spec fn pack_name(self) -> Seq<char> {
        trimmed(self.given_name())
    }

    /// The type of the pack's source.
    pub open spec fn source(self) -> Seq<char> {
        match self {
            PackRequest::Wallhaven { .. } => "wallhaven"@,
            PackRequest::Unsplash { .. } => "unsplash"@,
            PackRequest::Reddit { .. } => "reddit"@,
            PackRequest::GenericJson { .. } => "generic_json"@,
            PackRequest::StaticUrl { .. } => "static_url"@,
            PackRequest::Local { .. } => "local"@,
        }
    }

    /// What the request lacks, if it lacks anything. Every request needs a
    /// name; each source needs what identifies it. Blank counts as missing.
    pub open spec fn lacks(self) -> Option<Seq<char>> {
        match self {
            PackRequest::Wallhaven { name, keyword, .. } => if is_blank(name@) || is_blank(
                keyword@,
            ) {
                Some("name and keyword are required"@)
            } else {
                None
            },
            PackRequest::Unsplash { name, query, .. } => if is_blank(name@) || is_blank(query@) {
                Some("name and query are required"@)
            } else {
                None
            },
            PackRequest::Reddit { name, subreddits, .. } => if is_blank(name@) {
                Some("name is required"@)
            } else if absent(opt_view(subreddits)) {
                Some("subreddits is required"@)
            } else {
                None
            },
            PackRequest::GenericJson { name, endpoint, image_path, .. } => if is_blank(name@)
                || is_blank(endpoint@) || is_blank(image_path@) {
                Some("name, endpoint and imagePath are required"@)
            } else {
                None
            },
            PackRequest::StaticUrl { name, url, urls, .. } => if is_blank(name@) {
                Some("name is required"@)
            } else if absent(opt_view(url)) && absent(opt_view(urls)) {
                Some("url or urls is required"@)
            } else {
                None
            },
            PackRequest::Local { name, paths } => if is_blank(name@) {
                Some("name is required"@)
            } else if is_blank(paths@) {
                Some("paths is required"@)
            } else {
                None
            },
        }
    }

    /// What follows the pack's name and type on the command line.
    pub open spec fn details(self) -> Seq<Seq<char>> {
        match self {
            PackRequest::Wallhaven {
                keyword,
                subthemes,
                categories,
                purity,
                ratios,
                colors,
                atleast,
                sorting,
                ai_art,
                allow_sfw,
                allow_sketchy,
                allow_nsfw,
                category_general,
                category_anime,
                category_people,
                ttl_sec,
                ..
            } => seq!["--keyword"@, trimmed(keyword@)] + flag_text("--subthemes"@, opt_view(subthemes))
                + flag_text("--categories"@, opt_view(categories)) + flag_text(
                "--purity"@,
                opt_view(purity),
            ) + flag_text("--ratios"@, opt_view(ratios)) + flag_text("--colors"@, opt_view(colors))
                + flag_text("--atleast"@, opt_view(atleast)) + flag_text(
                "--sorting"@,
                opt_view(sorting),
            ) + flag_bool("--ai-art"@, ai_art) + flag_bool("--allow-sfw"@, allow_sfw) + flag_bool(
                "--allow-sketchy"@,
                allow_sketchy,
            ) + flag_bool("--allow-nsfw"@, allow_nsfw) + flag_bool(
                "--category-general"@,
                category_general,
            ) + flag_bool("--category-anime"@, category_anime) + flag_bool(
                "--category-people"@,
                category_people,
            ) + flag_number("--ttl-sec"@, ttl_sec),
            PackRequest::Unsplash {
                query,
                subthemes,
                orientation,
                content_filter,
                topics,
                collections,
                username,
                image_width,
                image_height,
                image_fit,
                image_quality,
                ttl_sec,
                ..
            } => seq!["--query"@, trimmed(query@)] + flag_text("--subthemes"@, opt_view(subthemes))
                + flag_text("--orientation"@, opt_view(orientation)) + flag_text(
                "--content-filter"@,
                opt_view(content_filter),
            ) + flag_text("--topics"@, opt_view(topics)) + flag_text(
                "--collections"@,
                opt_view(collections),
            ) + flag_text("--username"@, opt_view(username)) + flag_number(
                "--image-width"@,
                image_width,
            ) + flag_number("--image-height"@, image_height) + flag_text(
                "--image-fit"@,
                opt_view(image_fit),
            ) + flag_number("--image-quality"@, image_quality) + flag_number("--ttl-sec"@, ttl_sec),
            PackRequest::Reddit {
                subreddits,
                subthemes,
                allow_sfw,
                min_width,
                min_height,
                ratio_w,
                ratio_h,
                ttl_sec,
                ..
            } => flag_text("--subreddits"@, opt_view(subreddits)) + flag_text(
                "--subthemes"@,
                opt_view(subthemes),
            ) + flag_bool("--allow-sfw"@, allow_sfw) + flag_number("--min-width"@, min_width)
                + flag_number("--min-height"@, min_height) + flag_number("--ratio-w"@, ratio_w)
                + flag_number("--ratio-h"@, ratio_h) + flag_number("--ttl-sec"@, ttl_sec),
            PackRequest::GenericJson {
                endpoint,
                image_path,
                image_prefix,
                post_path,
                post_prefix,
                author_name_path,
                author_url_path,
                author_url_prefix,
                domain,
                ttl_sec,
                ..
            } => seq!["--endpoint"@, trimmed(endpoint@), "--image-path"@, trimmed(image_path@)]
                + flag_text("--image-prefix"@, opt_view(image_prefix)) + flag_text(
                "--post-path"@,
                opt_view(post_path),
            ) + flag_text("--post-prefix"@, opt_view(post_prefix)) + flag_text(
                "--author-name-path"@,
                opt_view(author_name_path),
            ) + flag_text("--author-url-path"@, opt_view(author_url_path)) + flag_text(
                "--author-url-prefix"@,
                opt_view(author_url_prefix),
            ) + flag_text("--domain"@, opt_view(domain)) + flag_number("--ttl-sec"@, ttl_sec),
            PackRequest::StaticUrl {
                url,
                urls,
                author_name,
                author_url,
                domain,
                post_url,
                different_images,
                count,
                ttl_sec,
                ..
            } => flag_text("--url"@, opt_view(url)) + flag_text("--urls"@, opt_view(urls))
                + flag_text("--author-name"@, opt_view(author_name)) + flag_text(
                "--author-url"@,
                opt_view(author_url),
            ) + flag_text("--domain"@, opt_view(domain)) + flag_text(
                "--post-url"@,
                opt_view(post_url),
            ) + flag_bool("--different-images"@, different_images) + flag_number("--count"@, count)
                + flag_number("--ttl-sec"@, ttl_sec),
            PackRequest::Local { paths, .. } => seq!["--paths"@, trimmed(paths@)],
        }
    }

    /// The key to store for the pack once it is there: the one given,
    /// without the white space around it, for the sources that take one.
    pub open spec fn key(self) -> Option<Seq<char>> {
        match self {
            PackRequest::Wallhaven { api_key, .. } => if absent(opt_view(api_key)) {
                None
            } else {
                Some(trimmed(api_key->0@))
            },
            PackRequest::Unsplash { api_key, .. } => if absent(opt_view(api_key)) {
                None
            } else {
                Some(trimmed(api_key->0@))
            },
            _ => None,
        }
    }
}

/// Whether the pack listing `listing` holds a pack named `name`.
pub open spec fn listed(listing: JsonView, name: Seq<char>) -> bool {
    match listing.get("packs"@) {
        Some(JsonView::Object(members)) => find_member(members, name) is Some,
        _ => false,
    }
}

/// Whether the wallpaper manager's pack listing holds a pack named `name`.
pub fn pack_exists(listing: &Json, name: &str) -> (b: bool)
    ensures
        b == listed(listing@, name@),
{
    match listing.get("packs") {
        Some(packs) => match packs {
            Json::Object(_) => packs.get(name).is_some(),
            _ => false,
        },
        None => false,
    }
}

/// `update` for a pack that is there, `add` for one that is not.
pub open spec fn action_for(exists: bool) -> Seq<char> {
    if exists {
        "update"@
    } else {
        "add"@
    }
}

/// What carries a request out.
#[derive(Debug, PartialEq, Eq)]
pub struct Upsert {
    /// The pack's name.
    pub name: String,
    /// `add` or `update`.
    pub action: String,
    /// The type of the pack's source.
    pub source: String,
    /// The arguments of the command that adds or changes the pack.
    pub args: Vec<String>,
    /// The arguments of the command that stores the pack's key, to be run
    /// after the first has succeeded; `None` when there is no key to store.
    pub key_args: Option<Vec<String>>,
}

/// What carries a request out, as texts.
pub struct UpsertView {
    pub name: Seq<char>,
    pub action: Seq<char>,
    pub source: Seq<char>,
    pub args: Seq<Seq<char>>,
    pub key_args: Option<Seq<Seq<char>>>,
}

impl View for Upsert {
    type V = UpsertView;

    open spec fn view(&self) -> UpsertView {
        UpsertView {
            name: self.name@,
            action: self.action@,
            source: self.source@,
            args: views(self.args@),
            key_args: match self.key_args {
                Some(args) => Some(views(args@)),
                None => None,
            },
        }
    }
}

/// What carries out the request `req`, which lacks nothing, given whether
/// its pack is there already.
pub open spec fn upsert_for(req: PackRequest, exists: bool) -> UpsertView {
    UpsertView {
        name: req.pack_name(),
        action: action_for(exists),
        source: req.source(),
        args: seq!["pack"@, action_for(exists), req.pack_name(), "--type"@, req.source()]
            + req.details(),
        key_args: match req.key() {
            Some(key) => Some(seq!["pack"@, "set-key"@, req.pack_name(), "--api-key"@, key]),
            None => None,
        },
    }
}

/// What becomes of a request, given the pack listing: the commands that
/// carry it out, or what it lacks.
pub open spec fn planned(req: PackRequest, listing: JsonView) -> Result<UpsertView, Seq<char>> {
    match req.lacks() {
        Some(what) => Err(what),
        None => Ok(upsert_for(req, listed(listing, req.pack_name()))),
    }
}

fn is_absent(value: &Option<String>) -> (b: bool)
    ensures
        b == absent(opt_view(*value)),
{
    match value {
        Some(v) => blank(v.as_str()),
        None => true,
    }
}

fn key_of(api_key: &Option<String>) -> (r: Option<String>)
    ensures
        opt_view(r) == (if absent(opt_view(*api_key)) {
            None
        } else {
            Some(trimmed(api_key->0@))
        }),
{
    match api_key {
        Some(v) => if blank(v.as_str()) {
            None
        } else {
            Some(trim(v.as_str()))
        },
        None => None,
    }
}

impl PackRequest {
    /// Says what the request lacks, if anything.
    pub fn check(&self) -> (r: Result<(), String>)
        ensures
            match r {
                Ok(_) => self.lacks() is None,
                Err(what) => self.lacks() == Some(what@),
            },
    {
        match self {
            PackRequest::Wallhaven { name, keyword, .. } => {
                if blank(name.as_str()) || blank(keyword.as_str()) {
                    return Err("name and keyword are required".to_string());
                }
            },
            PackRequest::Unsplash { name, query, .. } => {
                if blank(name.as_str()) || blank(query.as_str()) {
                    return Err("name and query are required".to_string());
                }
            },
            PackRequest::Reddit { name, subreddits, .. } => {
                if blank(name.as_str()) {
                    return Err("name is required".to_string());
                }
                if is_absent(subreddits) {
                    return Err("subreddits is required".to_string());
                }
            },
            PackRequest::GenericJson { name, endpoint, image_path, .. } => {
                if blank(name.as_str()) || blank(endpoint.as_str()) || blank(image_path.as_str()) {
                    return Err("name, endpoint and imagePath are required".to_string());
                }
            },
            PackRequest::StaticUrl { name, url, urls, .. } => {
                if blank(name.as_str()) {
                    return Err("name is required".to_string());
                }
                if is_absent(url) && is_absent(urls) {
                    return Err("url or urls is required".to_string());
                }
            },
            PackRequest::Local { name, paths } => {
                if blank(name.as_str()) {
                    return Err("name is required".to_string());
                }
                if blank(paths.as_str()) {
                    return Err("paths is required".to_string());
                }
            },
        }
        Ok(())
    }

    fn name_text(&self) -> (out: String)
        ensures
            out@ == self.pack_name(),
    {
        match self {
            PackRequest::Wallhaven { name, .. } => trim(name.as_str()),
            PackRequest::Unsplash { name, .. } => trim(name.as_str()),
            PackRequest::Reddit { name, .. } => trim(name.as_str()),
            PackRequest::GenericJson { name, .. } => trim(name.as_str()),
            PackRequest::StaticUrl { name, .. } => trim(name.as_str()),
            PackRequest::Local { name, .. } => trim(name.as_str()),
        }
    }

    fn source_text(&self) -> (out: String)
        ensures
            out@ == self.source(),
    {
        match self {
            PackRequest::Wallhaven { .. } => "wallhaven".to_string(),
            PackRequest::Unsplash { .. } => "unsplash".to_string(),
            PackRequest::Reddit { .. } => "reddit".to_string(),
            PackRequest::GenericJson { .. } => "generic_json".to_string(),
            PackRequest::StaticUrl { .. } => "static_url".to_string(),
            PackRequest::Local { .. } => "local".to_string(),
        }
    }

    fn key_text(&self) -> (r: Option<String>)
        ensures
            opt_view(r) == self.key(),
    {
        match self {
            PackRequest::Wallhaven { api_key, .. } => key_of(api_key),
            PackRequest::Unsplash { api_key, .. } => key_of(api_key),
            _ => None,
        }
    }

    fn detail_args(&self) -> (out: Vec<String>)
        ensures
            views(out@) == self.details(),
    {
        let mut out: Vec<String> = Vec::new();
        assert(views(out@) =~= Seq::<Seq<char>>::empty());
        match self {
            PackRequest::Wallhaven {
                keyword,
                subthemes,
                categories,
                purity,
                ratios,
                colors,
                atleast,
                sorting,
                ai_art,
                allow_sfw,
                allow_sketchy,
                allow_nsfw,
                category_general,
                category_anime,
                category_people,
                ttl_sec,
                ..
            } => {
                push_pair(&mut out, "--keyword", trim(keyword.as_str()));
                assert(views(out@) =~= seq!["--keyword"@, trimmed(keyword@)]);
                push_flag_text(&mut out, "--subthemes", subthemes);
                push_flag_text(&mut out, "--categories", categories);
                push_flag_text(&mut out, "--purity", purity);
                push_flag_text(&mut out, "--ratios", ratios);
                push_flag_text(&mut out, "--colors", colors);
                push_flag_text(&mut out, "--atleast", atleast);
                push_flag_text(&mut out, "--sorting", sorting);
                push_flag_bool(&mut out, "--ai-art", *ai_art);
                push_flag_bool(&mut out, "--allow-sfw", *allow_sfw);
                push_flag_bool(&mut out, "--allow-sketchy", *allow_sketchy);
                push_flag_bool(&mut out, "--allow-nsfw", *allow_nsfw);
                push_flag_bool(&mut out, "--category-general", *category_general);
                push_flag_bool(&mut out, "--category-anime", *category_anime);
                push_flag_bool(&mut out, "--category-people", *category_people);
                push_flag_number(&mut out, "--ttl-sec", *ttl_sec);
            },
            PackRequest::Unsplash {
                query,
                subthemes,
                orientation,
                content_filter,
                topics,
                collections,
                username,
                image_width,
                image_height,
                image_fit,
                image_quality,
                ttl_sec,
                ..
            } => {
                push_pair(&mut out, "--query", trim(query.as_str()));
                assert(views(out@) =~= seq!["--query"@, trimmed(query@)]);
                push_flag_text(&mut out, "--subthemes", subthemes);
                push_flag_text(&mut out, "--orientation", orientation);
                push_flag_text(&mut out, "--content-filter", content_filter);
                push_flag_text(&mut out, "--topics", topics);
                push_flag_text(&mut out, "--collections", collections);
                push_flag_text(&mut out, "--username", username);
                push_flag_number(&mut out, "--image-width", *image_width);
                push_flag_number(&mut out, "--image-height", *image_height);
                push_flag_text(&mut out, "--image-fit", image_fit);
                push_flag_number(&mut out, "--image-quality", *image_quality);
                push_flag_number(&mut out, "--ttl-sec", *ttl_sec);
            },
            PackRequest::Reddit {
                subreddits,
                subthemes,
                allow_sfw,
                min_width,
                min_height,
                ratio_w,
                ratio_h,
                ttl_sec,
                ..
            } => {
                push_flag_text(&mut out, "--subreddits", subreddits);
                assert(views(out@) =~= flag_text("--subreddits"@, opt_view(*subreddits)));
                push_flag_text(&mut out, "--subthemes", subthemes);
                push_flag_bool(&mut out, "--allow-sfw", *allow_sfw);
                push_flag_number(&mut out, "--min-width", *min_width);
                push_flag_number(&mut out, "--min-height", *min_height);
                push_flag_number(&mut out, "--ratio-w", *ratio_w);
                push_flag_number(&mut out, "--ratio-h", *ratio_h);
                push_flag_number(&mut out, "--ttl-sec", *ttl_sec);
            },
            PackRequest::GenericJson {
                endpoint,
                image_path,
                image_prefix,
                post_path,
                post_prefix,
                author_name_path,
                author_url_path,
                author_url_prefix,
                domain,
                ttl_sec,
                ..
            } => {
                push_pair(&mut out, "--endpoint", trim(endpoint.as_str()));
                push_pair(&mut out, "--image-path", trim(image_path.as_str()));
                assert(views(out@) =~= seq![
                    "--endpoint"@,
                    trimmed(endpoint@),
                    "--image-path"@,
                    trimmed(image_path@),
                ]);
                push_flag_text(&mut out, "--image-prefix", image_prefix);
                push_flag_text(&mut out, "--post-path", post_path);
                push_flag_text(&mut out, "--post-prefix", post_prefix);
                push_flag_text(&mut out, "--author-name-path", author_name_path);
                push_flag_text(&mut out, "--author-url-path", author_url_path);
                push_flag_text(&mut out, "--author-url-prefix", author_url_prefix);
                push_flag_text(&mut out, "--domain", domain);
                push_flag_number(&mut out, "--ttl-sec", *ttl_sec);
            },
            PackRequest::StaticUrl {
                url,
                urls,
                author_name,
                author_url,
                domain,
                post_url,
                different_images,
                count,
                ttl_sec,
                ..
            } => {
                push_flag_text(&mut out, "--url", url);
                assert(views(out@) =~= flag_text("--url"@, opt_view(*url)));
                push_flag_text(&mut out, "--urls", urls);
                push_flag_text(&mut out, "--author-name", author_name);
                push_flag_text(&mut out, "--author-url", author_url);
                push_flag_text(&mut out, "--domain", domain);
                push_flag_text(&mut out, "--post-url", post_url);
                push_flag_bool(&mut out, "--different-images", *different_images);
                push_flag_number(&mut out, "--count", *count);
                push_flag_number(&mut out, "--ttl-sec", *ttl_sec);
            },
            PackRequest::Local { paths, .. } => {
                push_pair(&mut out, "--paths", trim(paths.as_str()));
                assert(views(out@) =~= seq!["--paths"@, trimmed(paths@)]);
            },
        }
        out
    }

    /// The commands that carry the request out, given the wallpaper
    /// manager's pack listing; or what the request lacks.
    pub fn plan(&self, listing: &Json) -> (r: Result<Upsert, String>)
        ensures
            match r {
                Ok(upsert) => planned(*self, listing@) == Ok::<UpsertView, Seq<char>>(upsert@),
                Err(what) => planned(*self, listing@) == Err::<UpsertView, Seq<char>>(what@),
            },
    {
        match self.check() {
            Err(what) => {
                return Err(what);
            },
            Ok(_) => {},
        }
        let name = self.name_text();
        let exists = pack_exists(listing, name.as_str());
        let action = if exists {
            "update".to_string()
        } else {
            "add".to_string()
        };
        let source = self.source_text();
        let mut args: Vec<String> = Vec::new();
        args.push("pack".to_string());
        args.push(action.clone());
        args.push(name.clone());
        args.push("--type".to_string());
        args.push(source.clone());
        assert(views(args@) =~= seq!["pack"@, action@, name@, "--type"@, source@]);
        let details = self.detail_args();
        append_all(&mut args, &details, 0);
        assert(views(details@).skip(0) =~= views(details@));
        let key_args = match self.key_text() {
            Some(key) => {
                let mut k: Vec<String> = Vec::new();
                k.push("pack".to_string());
                k.push("set-key".to_string());
                k.push(name.clone());
                k.push("--api-key".to_string());
                k.push(key);
                assert(views(k@) =~= seq!["pack"@, "set-key"@, name@, "--api-key"@, key@]);
                Some(k)
            },
            None => None,
        };
        Ok(Upsert { name, action, source, args, key_args })
    }
}

} // verus!
