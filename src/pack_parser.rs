//! What a pack format and a resource path say about a resource: the game version family,
//! the kind of resource, and its namespace.
use crate::text::{contains_text, lower_of, lowercase, text_contains};
use vstd::prelude::*;

verus! {

/// The family of game versions that a pack format belongs to.
#[derive(Debug, Clone, Copy, PartialEq, Eq, Structural)]
pub enum MinecraftVersion {
    /// Before 1.13.
    Legacy,
    /// 1.13 to 1.19.3.
    Flattening,
    /// 1.19.4 to 1.20.4.
    Components,
    /// 1.20.5 to 1.21.3.
    NewModel,
    /// 1.21.4 and later.
    ItemsFolder,
}

/// The kind of a resource file.
#[derive(Debug, Clone, Copy, PartialEq, Eq, Hash, Structural)]
pub enum ResourceType {
    Texture,
    Model,
    ItemModel,
    BlockState,
    Sound,
    Language,
    Font,
    Shader,
    Other,
}

/// The version family of a pack format; formats below one count as legacy.
pub open spec fn family_of(format: i32) -> MinecraftVersion {
    if 1 <= format <= 4 {
        MinecraftVersion::Legacy
    } else if 5 <= format <= 12 {
        MinecraftVersion::Flattening
    } else if 13 <= format <= 15 {
        MinecraftVersion::Components
    } else if 16 <= format <= 34 {
        MinecraftVersion::NewModel
    } else if format >= 35 {
        MinecraftVersion::ItemsFolder
    } else {
        MinecraftVersion::Legacy
    }
}

impl MinecraftVersion {
    /// The version family of a pack format.
    pub fn from_pack_format(format: i32) -> (r: MinecraftVersion)
        ensures
            r == family_of(format),
    {
        if 1 <= format && format <= 4 {
            MinecraftVersion::Legacy
        } else if 5 <= format && format <= 12 {
            MinecraftVersion::Flattening
        } else if 13 <= format && format <= 15 {
            MinecraftVersion::Components
        } else if 16 <= format && format <= 34 {
            MinecraftVersion::NewModel
        } else if format >= 35 {
            MinecraftVersion::ItemsFolder
        } else {
            MinecraftVersion::Legacy
        }
    }

    /// A short description of the family.
    pub fn description(&self) -> (r: &'static str)
        ensures
            r@ == match *self {
                MinecraftVersion::Legacy => "1.6-1.12 (Legacy)"@,
                MinecraftVersion::Flattening => "1.13-1.19.3 (Flattening)"@,
                MinecraftVersion::Components => "1.19.4-1.20.4 (Components)"@,
                MinecraftVersion::NewModel => "1.20.5-1.21.3 (New Components)"@,
                MinecraftVersion::ItemsFolder => "1.21.4+ (Items Folder)"@,
            },
    {
        match self {
            MinecraftVersion::Legacy => "1.6-1.12 (Legacy)",
            MinecraftVersion::Flattening => "1.13-1.19.3 (Flattening)",
            MinecraftVersion::Components => "1.19.4-1.20.4 (Components)",
            MinecraftVersion::NewModel => "1.20.5-1.21.3 (New Components)",
            MinecraftVersion::ItemsFolder => "1.21.4+ (Items Folder)",
        }
    }

    /// Whether item models live in the `items` folder.
    pub fn uses_items_folder(&self) -> (r: bool)
        ensures
            r == (*self is ItemsFolder),
    {
        match self {
            MinecraftVersion::ItemsFolder => true,
            _ => false,
        }
    }

    /// Whether items use the component system.
    pub fn uses_components(&self) -> (r: bool)
        ensures
            r == (*self is Components || *self is NewModel || *self is ItemsFolder),
    {
        match self {
            MinecraftVersion::Components | MinecraftVersion::NewModel | MinecraftVersion::ItemsFolder => true,
            _ => false,
        }
    }
}

/// The kind of the resource at a lower-cased path, by the first folder name that it contains:
/// `/items/` (only where the items folder is used), `/textures/`, `/models/`, `/blockstates/`,
/// `/sounds/`, `/lang/`, `/font/`, `/shaders/`.
pub open spec fn kind_of(lowered: Seq<char>, version: MinecraftVersion) -> ResourceType {
    if version is ItemsFolder && contains_text(lowered, "/items/"@) {
        ResourceType::ItemModel
    } else if contains_text(lowered, "/textures/"@) {
        ResourceType::Texture
    } else if contains_text(lowered, "/models/"@) {
        ResourceType::Model
    } else if contains_text(lowered, "/blockstates/"@) {
        ResourceType::BlockState
    } else if contains_text(lowered, "/sounds/"@) {
        ResourceType::Sound
    } else if contains_text(lowered, "/lang/"@) {
        ResourceType::Language
    } else if contains_text(lowered, "/font/"@) {
        ResourceType::Font
    } else if contains_text(lowered, "/shaders/"@) {
        ResourceType::Shader
    } else {
        ResourceType::Other
    }
}

/// The kind of the resource at a path that is already lower-cased.
pub fn classify_lowered_path(lowered: &str, version: &MinecraftVersion) -> (r: ResourceType)
    ensures
        r == kind_of(lowered@, *version),
{
    if version.uses_items_folder() && text_contains(lowered, "/items/") {
        ResourceType::ItemModel
    } else if text_contains(lowered, "/textures/") {
        ResourceType::Texture
    } else if text_contains(lowered, "/models/") {
        ResourceType::Model
    } else if text_contains(lowered, "/blockstates/") {
        ResourceType::BlockState
    } else if text_contains(lowered, "/sounds/") {
        ResourceType::Sound
    } else if text_contains(lowered, "/lang/") {
        ResourceType::Language
    } else if text_contains(lowered, "/font/") {
        ResourceType::Font
    } else if text_contains(lowered, "/shaders/") {
        ResourceType::Shader
    } else {
        ResourceType::Other
    }
}

/// The kind of the resource at `path`, whatever its case.
pub fn parse_resource_type(path: &str, version: &MinecraftVersion) -> (r: ResourceType)
    ensures
        r == kind_of(lower_of(path@), *version),
{
    let lowered = lowercase(path);
    classify_lowered_path(lowered.as_str(), version)
}

/// The position of the first occurrence of `pattern` in `s`, if any.
pub open spec fn first_index(s: Seq<char>, pattern: Seq<char>) -> Option<int>
    decreases s.len(),
{
    if s.len() < pattern.len() {
        None
    } else if s.take(pattern.len() as int) == pattern {
        Some(0)
    } else if s.len() == 0 {
        None
    } else {
        match first_index(s.drop_first(), pattern) {
            Some(k) => Some(k + 1),
            None => None,
        }
    }
}

/// The namespace of a resource path: the folder name right after the first `assets/`, if a
/// `/` ends it.
pub open spec fn namespace_of(path: Seq<char>) -> Option<Seq<char>> {
    match first_index(path, "assets/"@) {
        Some(i) => {
            let rest = path.skip(i + 7);
            match first_index(rest, seq!['/']) {
                Some(j) => Some(rest.take(j)),
                None => None,
            }
        },
        None => None,
    }
}

proof fn lemma_first_index_fits(s: Seq<char>, pattern: Seq<char>)
    ensures
        first_index(s, pattern) matches Some(k) ==> 0 <= k && k + pattern.len() <= s.len(),
    decreases s.len(),
{
    if s.len() >= pattern.len() && s.take(pattern.len() as int) != pattern && s.len() > 0 {
        lemma_first_index_fits(s.drop_first(), pattern);
    }
}

/// The first position at or after `from` where `pattern` occurs in `s`, if any.
fn find_from(s: &str, pattern: &str, from: usize) -> (r: Option<usize>)
    requires
        from <= s@.len(),
        pattern@.len() > 0,
    ensures
        match r {
            Some(i) => first_index(s@.skip(from as int), pattern@) == Some(i - from) && from <= i,
            None => first_index(s@.skip(from as int), pattern@) is None,
        },
{
    let n = s.unicode_len();
    let m = pattern.unicode_len();
    let ghost base = s@.skip(from as int);
    let mut at: usize = from;
    while at < n
        invariant
            n == s@.len(),
            m == pattern@.len(),
            m > 0,
            from <= at <= n,
            base == s@.skip(from as int),
            first_index(base, pattern@) == match first_index(s@.skip(at as int), pattern@) {
                Some(k) => Some(k + (at - from)),
                None => None::<int>,
            },
        decreases n - at,
    {
        let ghost rest = s@.skip(at as int);
        if m <= n - at {
            let mut j: usize = 0;
            let mut same = true;
            while j < m && same
                invariant
                    n == s@.len(),
                    m == pattern@.len(),
                    at + m <= n,
                    j <= m,
                    same == forall|k: int| 0 <= k < j ==> s@[at + k] == pattern@[k],
                decreases m - j,
            {
                if s.get_char(at + j) != pattern.get_char(j) {
                    same = false;
                }
                j = j + 1;
            }
            if same {
                assert(rest.take(m as int) =~= pattern@);
                return Some(at);
            }
            assert(rest.take(m as int) != pattern@) by {
                let k = choose|k: int| 0 <= k < j && s@[at + k] != pattern@[k];
                assert(rest.take(m as int)[k] == s@[at + k]);
            }
        }
        assert(rest.drop_first() =~= s@.skip(at as int + 1));
        at = at + 1;
    }
    assert(s@.skip(at as int).len() == 0);
    None
}

/// The namespace of a resource path: the folder name right after the first `assets/`, if a
/// `/` ends it.
pub fn extract_namespace(path: &str) -> (r: Option<String>)
    ensures
        match namespace_of(path@) {
            Some(ns) => r is Some && r->0@ == ns,
            None => r is None,
        },
{
    proof {
        reveal_strlit("assets/");
        reveal_strlit("/");
    }
    assert(path@.skip(0) =~= path@);
    let n = path.unicode_len();
    assert("assets/"@.len() == 7);
    let found = find_from(path, "assets/", 0);
    proof {
        lemma_first_index_fits(path@, "assets/"@);
    }
    let start = match found {
        Some(i) => i + 7,
        None => return None,
    };
    assert("/"@ =~= seq!['/']);
    let found_end = find_from(path, "/", start);
    proof {
        lemma_first_index_fits(path@.skip(start as int), seq!['/']);
    }
    let end = match found_end {
        Some(j) => j,
        None => return None,
    };
    let ns = path.substring_char(start, end);
    assert(ns@ =~= path@.skip(start as int).take(end - start));
    Some(ns.to_owned())
}

} // verus!
