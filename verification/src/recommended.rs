//! The curated applications shown on the Home tab, by freedesktop main
//! category, and the channels some of them need before they can be
//! installed.

use vstd::prelude::*;
use crate::text::{chars_of, eq_str};

verus! {

/// A freedesktop main category.
#[derive(Debug, Clone, Copy, PartialEq, Eq, Hash, Structural)]
pub enum Category {
    Graphics,
    AudioVideo,
    Office,
    Development,
    Engineering,
    Internet,
    Game,
}

pub open spec fn order_spec(c: Category) -> u8 {
    match c {
        Category::Graphics => 0,
        Category::AudioVideo => 1,
        Category::Office => 2,
        Category::Development => 3,
        Category::Engineering => 4,
        Category::Internet => 5,
        Category::Game => 6,
    }
}

impl Category {
    /// The heading shown for the category.
    pub fn label(self) -> (r: &'static str)
        ensures
            r@ == (match self {
                Category::Graphics => "Graphics"@,
                Category::AudioVideo => "Audio & Video"@,
                Category::Office => "Office"@,
                Category::Development => "Development"@,
                Category::Engineering => "Engineering"@,
                Category::Internet => "Internet"@,
                Category::Game => "Games"@,
            }),
    {
        match self {
            Category::Graphics => "Graphics",
            Category::AudioVideo => "Audio & Video",
            Category::Office => "Office",
            Category::Development => "Development",
            Category::Engineering => "Engineering",
            Category::Internet => "Internet",
            Category::Game => "Games",
        }
    }

    /// Display order on the Home tab; lower comes first.
    pub fn order(self) -> (r: u8)
        ensures
            r == order_spec(self),
    {
        match self {
            Category::Graphics => 0,
            Category::AudioVideo => 1,
            Category::Office => 2,
            Category::Development => 3,
            Category::Engineering => 4,
            Category::Internet => 5,
            Category::Game => 6,
        }
    }
}

/// One recommended application: its exact package name (the search key
/// and install target), its category and a one-line description.
#[derive(Debug, Clone, Copy)]
pub struct RecommendedApp {
    pub name: &'static str,
    pub category: Category,
    pub blurb: &'static str,
}

/// The channels `name` needs (all of them) before its tile is shown;
/// none for the default channel set.
pub open spec fn required_channels_spec(name: Seq<char>) -> Seq<Seq<char>> {
    if name == "rnote"@ || name == "rustdesk"@ || name == "gitbutler"@ || name == "appflowy"@ || name == "halloy"@ || name == "qalculate-gtk"@ || name == "tidal-hifi"@ || name == "discord"@ || name == "syncthingtray"@ {
        seq!["pantherx"@]
    } else {
        Seq::empty()
    }
}

pub fn required_channels(name: &str) -> (r: Vec<&'static str>)
    ensures
        r@.map_values(|s: &str| s@) == required_channels_spec(name@),
{
    let gated: [&str; 9] = ["rnote", "rustdesk", "gitbutler", "appflowy", "halloy", "qalculate-gtk", "tidal-hifi", "discord", "syncthingtray"];
    let cs = chars_of(name);
    let mut i: usize = 0;
    let mut found = false;
    while i < gated.len()
        invariant
            i <= gated@.len(),
            gated@ == seq!["rnote", "rustdesk", "gitbutler", "appflowy", "halloy", "qalculate-gtk", "tidal-hifi", "discord", "syncthingtray"],
            cs@ == name@,
            found == (exists|j: int| 0 <= j < i && gated@[j]@ == name@),
        decreases gated@.len() - i,
    {
        if eq_str(&cs, gated[i]) {
            found = true;
        }
        i += 1;
    }
    let mut r: Vec<&'static str> = Vec::new();
    if found {
        r.push("pantherx");
    }
    proof {
        if found {
            let j = choose|j: int| 0 <= j < gated@.len() && gated@[j]@ == name@;
            assert(gated@[j]@ == name@);
        } else {
            assert(!(exists|j: int| 0 <= j < gated@.len() && gated@[j]@ == name@));
            assert(gated@[0]@ != name@);assert(gated@[1]@ != name@);assert(gated@[2]@ != name@);assert(gated@[3]@ != name@);assert(gated@[4]@ != name@);assert(gated@[5]@ != name@);assert(gated@[6]@ != name@);assert(gated@[7]@ != name@);assert(gated@[8]@ != name@);
        }
    }
    assert(r@.map_values(|s: &str| s@) =~= required_channels_spec(name@));
    r
}

/// The curated table, in display order within each category.
pub open spec fn recommended_table() -> Seq<RecommendedApp> {
    seq![
        RecommendedApp { name: "gimp", category: Category::Graphics, blurb: "Raster image editor — the long-standing open-source Photoshop alternative." },
        RecommendedApp { name: "inkscape", category: Category::Graphics, blurb: "Vector graphics editor for SVG illustration and design work." },
        RecommendedApp { name: "krita", category: Category::Graphics, blurb: "Digital painting application built around illustrators and concept artists." },
        RecommendedApp { name: "blender", category: Category::Graphics, blurb: "3D modelling, animation, sculpting, and rendering suite." },
        RecommendedApp { name: "darktable", category: Category::Graphics, blurb: "Non-destructive photo workflow with a capable RAW developer." },
        RecommendedApp { name: "rawtherapee", category: Category::Graphics, blurb: "Cross-platform RAW image processor with fine-grained tonal controls." },
        RecommendedApp { name: "mypaint", category: Category::Graphics, blurb: "Free-form painting app focused on a distraction-free canvas." },
        RecommendedApp { name: "scribus", category: Category::Graphics, blurb: "Desktop publishing for posters, newsletters, magazines, and books." },
        RecommendedApp { name: "digikam", category: Category::Graphics, blurb: "Advanced photo library, RAW developer, and tagging workflow from KDE." },
        RecommendedApp { name: "shotwell", category: Category::Graphics, blurb: "Lightweight personal photo organiser for the GNOME desktop." },
        RecommendedApp { name: "audacity", category: Category::AudioVideo, blurb: "Multi-track audio editor and recorder." },
        RecommendedApp { name: "vlc", category: Category::AudioVideo, blurb: "Plays just about every audio and video format you'll encounter." },
        RecommendedApp { name: "kdenlive", category: Category::AudioVideo, blurb: "Non-linear video editor with multi-track timeline editing." },
        RecommendedApp { name: "shotcut", category: Category::AudioVideo, blurb: "Cross-platform video editor built on FFmpeg with a wide format range." },
        RecommendedApp { name: "pitivi", category: Category::AudioVideo, blurb: "GNOME-native video editor focused on a clean, approachable workflow." },
        RecommendedApp { name: "ardour", category: Category::AudioVideo, blurb: "Professional digital audio workstation for recording and mixing." },
        RecommendedApp { name: "lmms", category: Category::AudioVideo, blurb: "Music production studio for beats, basslines, and full arrangements." },
        RecommendedApp { name: "mixxx", category: Category::AudioVideo, blurb: "DJ software with deck mixing, effects, and controller support." },
        RecommendedApp { name: "mpv", category: Category::AudioVideo, blurb: "Scriptable media player with great codec coverage and a minimal UI." },
        RecommendedApp { name: "celluloid", category: Category::AudioVideo, blurb: "GTK front-end for mpv — drag, drop, play, with a tidy modern interface." },
        RecommendedApp { name: "clementine", category: Category::AudioVideo, blurb: "Music player and library manager with internet radio and podcast support." },
        RecommendedApp { name: "musescore", category: Category::AudioVideo, blurb: "Music notation, composition, and playback for scores of any complexity." },
        RecommendedApp { name: "gpodder", category: Category::AudioVideo, blurb: "Podcast subscription manager that syncs across devices." },
        RecommendedApp { name: "tidal-hifi", category: Category::AudioVideo, blurb: "Unofficial desktop client for the Tidal music streaming service." },
        RecommendedApp { name: "libreoffice", category: Category::Office, blurb: "Full office suite — documents, spreadsheets, presentations." },
        RecommendedApp { name: "gnucash", category: Category::Office, blurb: "Double-entry accounting for personal finance and small business." },
        RecommendedApp { name: "evince", category: Category::Office, blurb: "Lightweight viewer for PDFs, ePubs, and a handful of other formats." },
        RecommendedApp { name: "xournalpp", category: Category::Office, blurb: "Hand-written note taking and PDF annotation with pressure sensitivity." },
        RecommendedApp { name: "keepassxc", category: Category::Office, blurb: "Offline password manager with a cross-platform GUI." },
        RecommendedApp { name: "calibre", category: Category::Office, blurb: "Ebook library manager — conversion, sync, and a built-in reader." },
        RecommendedApp { name: "okular", category: Category::Office, blurb: "Universal document viewer for PDFs, ePubs, comics, and more." },
        RecommendedApp { name: "foliate", category: Category::Office, blurb: "Polished ebook reader with annotations and dictionary lookup." },
        RecommendedApp { name: "rnote", category: Category::Office, blurb: "Hand-drawn note taking and PDF annotation built for stylus input." },
        RecommendedApp { name: "appflowy", category: Category::Office, blurb: "Open-source workspace for docs, tasks, and databases — a Notion alternative." },
        RecommendedApp { name: "qalculate-gtk", category: Category::Office, blurb: "Multi-purpose calculator with units, currencies, plotting, and symbolic algebra." },
        RecommendedApp { name: "zed", category: Category::Development, blurb: "High-performance multiplayer code editor — fast, GPU-rendered, collaborative." },
        RecommendedApp { name: "gitbutler", category: Category::Development, blurb: "Reimagined git workflow with virtual branches and a visual commit composer." },
        RecommendedApp { name: "openscad", category: Category::Engineering, blurb: "Programmer's 3D CAD modeller — describe geometry as code." },
        RecommendedApp { name: "freecad", category: Category::Engineering, blurb: "Parametric 3D CAD for mechanical engineering and product design." },
        RecommendedApp { name: "kicad", category: Category::Engineering, blurb: "Electronic design automation suite for schematics and PCB layout." },
        RecommendedApp { name: "thunderbird", category: Category::Internet, blurb: "Mail, calendar, and contacts client from the Mozilla project." },
        RecommendedApp { name: "hexchat", category: Category::Internet, blurb: "IRC client with multi-server support and a sane default interface." },
        RecommendedApp { name: "transmission", category: Category::Internet, blurb: "Lightweight BitTorrent client with a clean GTK interface." },
        RecommendedApp { name: "gajim", category: Category::Internet, blurb: "XMPP chat client with end-to-end encryption and group-chat support." },
        RecommendedApp { name: "dino", category: Category::Internet, blurb: "Modern XMPP client focused on a clean, conversation-first interface." },
        RecommendedApp { name: "halloy", category: Category::Internet, blurb: "Modern Rust-built IRC client with a clean, native interface." },
        RecommendedApp { name: "rustdesk", category: Category::Internet, blurb: "Self-hostable remote desktop — an open alternative to TeamViewer." },
        RecommendedApp { name: "discord", category: Category::Internet, blurb: "Voice, video, and text chat platform popular with gaming and dev communities." },
        RecommendedApp { name: "syncthingtray", category: Category::Internet, blurb: "System-tray GUI for Syncthing — status, controls, and notifications at a glance." },
        RecommendedApp { name: "0ad", category: Category::Game, blurb: "Free real-time strategy game set across ancient civilisations." },
        RecommendedApp { name: "supertuxkart", category: Category::Game, blurb: "Cart-racing game starring the Linux mascot and friends." },
        RecommendedApp { name: "minetest", category: Category::Game, blurb: "Open-source voxel sandbox in the vein of Minecraft." },
        RecommendedApp { name: "wesnoth", category: Category::Game, blurb: "Turn-based fantasy strategy with an extensive single-player campaign." },
        RecommendedApp { name: "widelands", category: Category::Game, blurb: "Settlers-style real-time strategy focused on economic build-up." },
        RecommendedApp { name: "openttd", category: Category::Game, blurb: "Open-source rebuild of the Transport Tycoon Deluxe classic." },
    ]
}

/// The curated table.
pub fn recommended() -> (r: Vec<RecommendedApp>)
    ensures
        r@ == recommended_table(),
{
    vec![
        RecommendedApp { name: "gimp", category: Category::Graphics, blurb: "Raster image editor — the long-standing open-source Photoshop alternative." },
        RecommendedApp { name: "inkscape", category: Category::Graphics, blurb: "Vector graphics editor for SVG illustration and design work." },
        RecommendedApp { name: "krita", category: Category::Graphics, blurb: "Digital painting application built around illustrators and concept artists." },
        RecommendedApp { name: "blender", category: Category::Graphics, blurb: "3D modelling, animation, sculpting, and rendering suite." },
        RecommendedApp { name: "darktable", category: Category::Graphics, blurb: "Non-destructive photo workflow with a capable RAW developer." },
        RecommendedApp { name: "rawtherapee", category: Category::Graphics, blurb: "Cross-platform RAW image processor with fine-grained tonal controls." },
        RecommendedApp { name: "mypaint", category: Category::Graphics, blurb: "Free-form painting app focused on a distraction-free canvas." },
        RecommendedApp { name: "scribus", category: Category::Graphics, blurb: "Desktop publishing for posters, newsletters, magazines, and books." },
        RecommendedApp { name: "digikam", category: Category::Graphics, blurb: "Advanced photo library, RAW developer, and tagging workflow from KDE." },
        RecommendedApp { name: "shotwell", category: Category::Graphics, blurb: "Lightweight personal photo organiser for the GNOME desktop." },
        RecommendedApp { name: "audacity", category: Category::AudioVideo, blurb: "Multi-track audio editor and recorder." },
        RecommendedApp { name: "vlc", category: Category::AudioVideo, blurb: "Plays just about every audio and video format you'll encounter." },
        RecommendedApp { name: "kdenlive", category: Category::AudioVideo, blurb: "Non-linear video editor with multi-track timeline editing." },
        RecommendedApp { name: "shotcut", category: Category::AudioVideo, blurb: "Cross-platform video editor built on FFmpeg with a wide format range." },
        RecommendedApp { name: "pitivi", category: Category::AudioVideo, blurb: "GNOME-native video editor focused on a clean, approachable workflow." },
        RecommendedApp { name: "ardour", category: Category::AudioVideo, blurb: "Professional digital audio workstation for recording and mixing." },
        RecommendedApp { name: "lmms", category: Category::AudioVideo, blurb: "Music production studio for beats, basslines, and full arrangements." },
        RecommendedApp { name: "mixxx", category: Category::AudioVideo, blurb: "DJ software with deck mixing, effects, and controller support." },
        RecommendedApp { name: "mpv", category: Category::AudioVideo, blurb: "Scriptable media player with great codec coverage and a minimal UI." },
        RecommendedApp { name: "celluloid", category: Category::AudioVideo, blurb: "GTK front-end for mpv — drag, drop, play, with a tidy modern interface." },
        RecommendedApp { name: "clementine", category: Category::AudioVideo, blurb: "Music player and library manager with internet radio and podcast support." },
        RecommendedApp { name: "musescore", category: Category::AudioVideo, blurb: "Music notation, composition, and playback for scores of any complexity." },
        RecommendedApp { name: "gpodder", category: Category::AudioVideo, blurb: "Podcast subscription manager that syncs across devices." },
        RecommendedApp { name: "tidal-hifi", category: Category::AudioVideo, blurb: "Unofficial desktop client for the Tidal music streaming service." },
        RecommendedApp { name: "libreoffice", category: Category::Office, blurb: "Full office suite — documents, spreadsheets, presentations." },
        RecommendedApp { name: "gnucash", category: Category::Office, blurb: "Double-entry accounting for personal finance and small business." },
        RecommendedApp { name: "evince", category: Category::Office, blurb: "Lightweight viewer for PDFs, ePubs, and a handful of other formats." },
        RecommendedApp { name: "xournalpp", category: Category::Office, blurb: "Hand-written note taking and PDF annotation with pressure sensitivity." },
        RecommendedApp { name: "keepassxc", category: Category::Office, blurb: "Offline password manager with a cross-platform GUI." },
        RecommendedApp { name: "calibre", category: Category::Office, blurb: "Ebook library manager — conversion, sync, and a built-in reader." },
        RecommendedApp { name: "okular", category: Category::Office, blurb: "Universal document viewer for PDFs, ePubs, comics, and more." },
        RecommendedApp { name: "foliate", category: Category::Office, blurb: "Polished ebook reader with annotations and dictionary lookup." },
        RecommendedApp { name: "rnote", category: Category::Office, blurb: "Hand-drawn note taking and PDF annotation built for stylus input." },
        RecommendedApp { name: "appflowy", category: Category::Office, blurb: "Open-source workspace for docs, tasks, and databases — a Notion alternative." },
        RecommendedApp { name: "qalculate-gtk", category: Category::Office, blurb: "Multi-purpose calculator with units, currencies, plotting, and symbolic algebra." },
        RecommendedApp { name: "zed", category: Category::Development, blurb: "High-performance multiplayer code editor — fast, GPU-rendered, collaborative." },
        RecommendedApp { name: "gitbutler", category: Category::Development, blurb: "Reimagined git workflow with virtual branches and a visual commit composer." },
        RecommendedApp { name: "openscad", category: Category::Engineering, blurb: "Programmer's 3D CAD modeller — describe geometry as code." },
        RecommendedApp { name: "freecad", category: Category::Engineering, blurb: "Parametric 3D CAD for mechanical engineering and product design." },
        RecommendedApp { name: "kicad", category: Category::Engineering, blurb: "Electronic design automation suite for schematics and PCB layout." },
        RecommendedApp { name: "thunderbird", category: Category::Internet, blurb: "Mail, calendar, and contacts client from the Mozilla project." },
        RecommendedApp { name: "hexchat", category: Category::Internet, blurb: "IRC client with multi-server support and a sane default interface." },
        RecommendedApp { name: "transmission", category: Category::Internet, blurb: "Lightweight BitTorrent client with a clean GTK interface." },
        RecommendedApp { name: "gajim", category: Category::Internet, blurb: "XMPP chat client with end-to-end encryption and group-chat support." },
        RecommendedApp { name: "dino", category: Category::Internet, blurb: "Modern XMPP client focused on a clean, conversation-first interface." },
        RecommendedApp { name: "halloy", category: Category::Internet, blurb: "Modern Rust-built IRC client with a clean, native interface." },
        RecommendedApp { name: "rustdesk", category: Category::Internet, blurb: "Self-hostable remote desktop — an open alternative to TeamViewer." },
        RecommendedApp { name: "discord", category: Category::Internet, blurb: "Voice, video, and text chat platform popular with gaming and dev communities." },
        RecommendedApp { name: "syncthingtray", category: Category::Internet, blurb: "System-tray GUI for Syncthing — status, controls, and notifications at a glance." },
        RecommendedApp { name: "0ad", category: Category::Game, blurb: "Free real-time strategy game set across ancient civilisations." },
        RecommendedApp { name: "supertuxkart", category: Category::Game, blurb: "Cart-racing game starring the Linux mascot and friends." },
        RecommendedApp { name: "minetest", category: Category::Game, blurb: "Open-source voxel sandbox in the vein of Minecraft." },
        RecommendedApp { name: "wesnoth", category: Category::Game, blurb: "Turn-based fantasy strategy with an extensive single-player campaign." },
        RecommendedApp { name: "widelands", category: Category::Game, blurb: "Settlers-style real-time strategy focused on economic build-up." },
        RecommendedApp { name: "openttd", category: Category::Game, blurb: "Open-source rebuild of the Transport Tycoon Deluxe classic." },
    ]
}

/// The categories in display order.
pub open spec fn all_categories() -> Seq<Category> {
    seq![
        Category::Graphics,
        Category::AudioVideo,
        Category::Office,
        Category::Development,
        Category::Engineering,
        Category::Internet,
        Category::Game,
    ]
}

/// The apps of category `c`, in table order.
pub open spec fn apps_in(apps: Seq<RecommendedApp>, c: Category) -> Seq<RecommendedApp>
    decreases apps.len(),
{
    if apps.len() == 0 {
        Seq::empty()
    } else {
        apps_in(apps.drop_last(), c) + if apps.last().category == c { seq![apps.last()] } else { Seq::empty() }
    }
}

/// One group per category that has apps, in the order of `cats`.
pub open spec fn groups_of(apps: Seq<RecommendedApp>, cats: Seq<Category>) -> Seq<(Category, Seq<RecommendedApp>)>
    decreases cats.len(),
{
    if cats.len() == 0 {
        Seq::empty()
    } else {
        groups_of(apps, cats.drop_last()) + if apps_in(apps, cats.last()).len() > 0 {
            seq![(cats.last(), apps_in(apps, cats.last()))]
        } else {
            Seq::empty()
        }
    }
}

pub open spec fn groups_view(v: Seq<(Category, Vec<RecommendedApp>)>) -> Seq<(Category, Seq<RecommendedApp>)> {
    v.map_values(|g: (Category, Vec<RecommendedApp>)| (g.0, g.1@))
}

fn apps_of(apps: &Vec<RecommendedApp>, c: Category) -> (r: Vec<RecommendedApp>)
    ensures
        r@ == apps_in(apps@, c),
{
    let mut out: Vec<RecommendedApp> = Vec::new();
    let mut i: usize = 0;
    assert(apps@.subrange(0, 0) =~= Seq::<RecommendedApp>::empty());
    while i < apps.len()
        invariant
            i <= apps@.len(),
            out@ == apps_in(apps@.subrange(0, i as int), c),
        decreases apps@.len() - i,
    {
        assert(apps@.subrange(0, i + 1).drop_last() =~= apps@.subrange(0, i as int));
        let a = apps[i];
        if a.category == c {
            out.push(a);
        }
        assert(out@ =~= apps_in(apps@.subrange(0, i + 1), c));
        i += 1;
    }
    assert(apps@.subrange(0, apps@.len() as int) =~= apps@);
    out
}

/// The apps grouped by category, the groups in display order.
pub fn grouped() -> (r: Vec<(Category, Vec<RecommendedApp>)>)
    ensures
        groups_view(r@) == groups_of(recommended_table(), all_categories()),
{
    let apps = recommended();
    let cats: [Category; 7] = [
        Category::Graphics,
        Category::AudioVideo,
        Category::Office,
        Category::Development,
        Category::Engineering,
        Category::Internet,
        Category::Game,
    ];
    assert(cats@ == all_categories());
    let mut out: Vec<(Category, Vec<RecommendedApp>)> = Vec::new();
    let mut i: usize = 0;
    assert(cats@.subrange(0, 0) =~= Seq::<Category>::empty());
    assert(groups_view(out@) =~= Seq::<(Category, Seq<RecommendedApp>)>::empty());
    while i < 7
        invariant
            i <= 7,
            cats@ == all_categories(),
            apps@ == recommended_table(),
            groups_view(out@) == groups_of(apps@, cats@.subrange(0, i as int)),
        decreases 7 - i,
    {
        assert(cats@.subrange(0, i + 1).drop_last() =~= cats@.subrange(0, i as int));
        let c = cats[i];
        let v = apps_of(&apps, c);
        let ghost before = groups_view(out@);
        if v.len() > 0 {
            out.push((c, v));
            assert(groups_view(out@) =~= before.push((c, v@)));
        } else {
            assert(before + Seq::<(Category, Seq<RecommendedApp>)>::empty() =~= before);
        }
        i += 1;
    }
    assert(cats@.subrange(0, 7) =~= cats@);
    out
}

/// Orders strictly increasing along a sequence of categories.
pub open spec fn strictly_ordered(cats: Seq<Category>) -> bool {
    forall|i: int, j: int| 0 <= i < j < cats.len() ==> order_spec(cats[i]) < order_spec(cats[j])
}

proof fn lemma_groups_sorted(apps: Seq<RecommendedApp>, cats: Seq<Category>)
    requires
        strictly_ordered(cats),
    ensures
        forall|k: int| 0 <= k < groups_of(apps, cats).len() ==>
            exists|j: int| 0 <= j < cats.len() && #[trigger] groups_of(apps, cats)[k].0 == cats[j],
        strictly_ordered(groups_of(apps, cats).map_values(|g: (Category, Seq<RecommendedApp>)| g.0)),
    decreases cats.len(),
{
    let g = groups_of(apps, cats);
    if cats.len() > 0 {
        let pc = cats.drop_last();
        lemma_groups_sorted(apps, pc);
        let prev = groups_of(apps, pc);
        assert forall|k: int| 0 <= k < g.len() implies
            exists|j: int| 0 <= j < cats.len() && #[trigger] g[k].0 == cats[j] by {
            if k < prev.len() {
                assert(g[k] == prev[k]);
                let j = choose|j: int| 0 <= j < pc.len() && #[trigger] prev[k].0 == pc[j];
                assert(pc[j] == cats[j]);
            } else {
                assert(g[k].0 == cats[cats.len() - 1]);
            }
        }
        let gm = g.map_values(|x: (Category, Seq<RecommendedApp>)| x.0);
        let pm = prev.map_values(|x: (Category, Seq<RecommendedApp>)| x.0);
        assert forall|k1: int, k2: int| 0 <= k1 < k2 < gm.len() implies order_spec(gm[k1]) < order_spec(gm[k2]) by {
            assert(gm[k1] == g[k1].0);
            assert(gm[k2] == g[k2].0);
            if k2 < prev.len() {
                assert(g[k1] == prev[k1]);
                assert(g[k2] == prev[k2]);
                assert(pm[k1] == prev[k1].0);
                assert(pm[k2] == prev[k2].0);
            } else {
                assert(g[k1] == prev[k1]);
                let j = choose|j: int| 0 <= j < pc.len() && #[trigger] prev[k1].0 == pc[j];
                assert(pc[j] == cats[j]);
                assert(g[k2].0 == cats[cats.len() - 1]);
            }
        }
    }
}

/// The groups come in strictly increasing display order (so no category
/// appears twice).
pub proof fn lemma_grouped_sorted()
    ensures
        strictly_ordered(groups_of(recommended_table(), all_categories()).map_values(|g: (Category, Seq<RecommendedApp>)| g.0)),
{
    let cats = all_categories();
    assert forall|i: int, j: int| 0 <= i < j < cats.len() implies order_spec(cats[i]) < order_spec(cats[j]) by {
        assert(order_spec(cats[i]) == i);
        assert(order_spec(cats[j]) == j);
    }
    lemma_groups_sorted(recommended_table(), cats);
}

proof fn lemma_apps_in_nonempty(apps: Seq<RecommendedApp>, i: int)
    requires
        0 <= i < apps.len(),
    ensures
        apps_in(apps, apps[i].category).len() > 0,
    decreases apps.len(),
{
    if i < apps.len() - 1 {
        lemma_apps_in_nonempty(apps.drop_last(), i);
        assert(apps.drop_last()[i] == apps[i]);
    }
}

proof fn lemma_group_present(apps: Seq<RecommendedApp>, cats: Seq<Category>, j: int)
    requires
        0 <= j < cats.len(),
        apps_in(apps, cats[j]).len() > 0,
    ensures
        exists|k: int| 0 <= k < groups_of(apps, cats).len() && #[trigger] groups_of(apps, cats)[k].0 == cats[j],
    decreases cats.len(),
{
    let g = groups_of(apps, cats);
    let prev = groups_of(apps, cats.drop_last());
    if j == cats.len() - 1 {
        assert(g[prev.len() as int].0 == cats[j]);
    } else {
        lemma_group_present(apps, cats.drop_last(), j);
        let k = choose|k: int| 0 <= k < prev.len() && #[trigger] prev[k].0 == cats.drop_last()[j];
        assert(g[k] == prev[k]);
    }
}

/// Every application appears in the group of its category.
pub proof fn lemma_every_app_grouped(i: int)
    requires
        0 <= i < recommended_table().len(),
    ensures
        exists|k: int| 0 <= k < groups_of(recommended_table(), all_categories()).len()
            && #[trigger] groups_of(recommended_table(), all_categories())[k].0 == recommended_table()[i].category,
{
    let apps = recommended_table();
    lemma_apps_in_nonempty(apps, i);
    let c = apps[i].category;
    let cats = all_categories();
    let j: int = order_spec(c) as int;
    assert(cats[j] == c);
    lemma_group_present(apps, cats, j);
}

} // verus!
