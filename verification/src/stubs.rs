//! The seeded demo catalog and a service that serves it.

use vstd::prelude::*;
use vstd::string::StringExecFns;

use crate::library::{LibraryService, LibraryServiceError, LibraryServiceErrorKind};
use crate::model::{ItemStatus, LibraryItem};

verus! {

/// The demo catalog: 46 titles from 16
/// publishers.
#[verifier::rlimit(100)]
pub fn stub_catalog() -> (items: Vec<LibraryItem>)
    ensures
        items@.len() == 46,
{
    vec![
        LibraryItem::new("b1", "Player's Handbook", "Wizards of the Coast", "Dungeons & Dragons 5e", "Core", "PDF", 320, 98304, 2014, 412, ItemStatus::Downloaded, "#1C2A44", "Core rules for players: species, classes, spells, equipment.", None),
        LibraryItem::new("b2", "Dungeon Master's Guide", "Wizards of the Coast", "Dungeons & Dragons 5e", "Core", "PDF", 320, 90112, 2014, 410, ItemStatus::Downloaded, "#6B2230", "Tools and guidance for building and running campaigns.", None),
        LibraryItem::new("b3", "Monster Manual", "Wizards of the Coast", "Dungeons & Dragons 5e", "Bestiary", "PDF", 352, 106496, 2014, 408, ItemStatus::Downloaded, "#20402F", "Hundreds of monsters with lore, stats, and tactics.", None),
        LibraryItem::new("b4", "Curse of Strahd", "Wizards of the Coast", "Dungeons & Dragons 5e", "Adventure", "PDF", 256, 73728, 2016, 220, ItemStatus::Downloaded, "#34234A", "Gothic horror campaign in the cursed land of Barovia.", None),
        LibraryItem::new("b5", "Xanathar's Guide to Everything", "Wizards of the Coast", "Dungeons & Dragons 5e", "Supplement", "PDF", 192, 59392, 2017, 96, ItemStatus::Cloud, "#15403F", "New subclasses, spells, and rules for players and DMs.", None),
        LibraryItem::new("b6", "Tasha's Cauldron of Everything", "Wizards of the Coast", "Dungeons & Dragons 5e", "Supplement", "PDF + EPUB", 192, 62464, 2020, 41, ItemStatus::Cloud, "#45264A", "Customizable origins, subclasses, feats, and group patrons.", None),
        LibraryItem::new("b7", "Pathfinder Player Core", "Paizo", "Pathfinder 2e", "Core", "PDF", 464, 135168, 2023, 188, ItemStatus::Downloaded, "#7E2230", "Everything to build and play a Pathfinder character.", None),
        LibraryItem::new("b8", "Pathfinder GM Core", "Paizo", "Pathfinder 2e", "Core", "PDF", 336, 100352, 2023, 180, ItemStatus::Downloaded, "#2E3A45", "Rules and advice for running the game as GM.", None),
        LibraryItem::new("b9", "Pathfinder Monster Core", "Paizo", "Pathfinder 2e", "Bestiary", "PDF", 360, 120832, 2024, 64, ItemStatus::Cloud, "#1B3A33", "Over four hundred monsters for any encounter.", None),
        LibraryItem::new("b10", "Abomination Vaults", "Paizo", "Pathfinder 2e", "Adventure", "PDF", 256, 80896, 2021, 150, ItemStatus::Downloaded, "#232529", "A three-part dungeon delve into a sunken stronghold.", None),
        LibraryItem::new("b11", "Mörk Borg", "Free League", "Mörk Borg", "Core", "PDF", 96, 45056, 2020, 73, ItemStatus::Downloaded, "#C9A02C", "Doom-metal art-punk dungeon crawler; the world is ending.", None),
        LibraryItem::new("b12", "The One Ring", "Free League", "Middle-earth", "Core", "PDF", 240, 88064, 2022, 132, ItemStatus::Downloaded, "#8A5A1E", "Adventure in the lands and ages of Tolkien's Middle-earth.", None),
        LibraryItem::new("b13", "Alien: The Roleplaying Game", "Free League", "Alien RPG", "Core", "PDF", 392, 126976, 2019, 210, ItemStatus::Downloaded, "#182338", "Sci-fi horror and survival in the corporate frontier.", None),
        LibraryItem::new("b14", "Tales from the Loop", "Free League", "Tales from the Loop", "Core", "PDF", 192, 65536, 2017, 305, ItemStatus::Cloud, "#16494E", "Kids solving mysteries in an alternate '80s of machines.", None),
        LibraryItem::new("b15", "Vaesen", "Free League", "Vaesen", "Core", "PDF", 192, 71680, 2020, 118, ItemStatus::Downloaded, "#1B3A33", "Nordic folk horror; hunt the creatures of myth.", None),
        LibraryItem::new("b16", "Forbidden Lands", "Free League", "Forbidden Lands", "Core", "PDF", 232, 82944, 2018, 240, ItemStatus::Cloud, "#7C3A24", "Open-world survival sandbox of raiders and explorers.", None),
        LibraryItem::new("b17", "Blade Runner: The Roleplaying Game", "Free League", "Blade Runner", "Core", "PDF + EPUB", 280, 101376, 2022, 88, ItemStatus::Downloaded, "#2A2750", "Neo-noir replicant detective work in 2037 Los Angeles.", None),
        LibraryItem::new("b18", "Twilight: 2000", "Free League", "Twilight: 2000", "Core", "PDF", 232, 78848, 2021, 162, ItemStatus::Cloud, "#46491F", "Open-world survival in the aftermath of a European war.", None),
        LibraryItem::new("b19", "Call of Cthulhu: Keeper Rulebook", "Chaosium", "Call of Cthulhu 7e", "Core", "PDF", 448, 131072, 2014, 360, ItemStatus::Downloaded, "#20402F", "Investigative cosmic horror in the Lovecraftian tradition.", None),
        LibraryItem::new("b20", "Pulp Cthulhu", "Chaosium", "Call of Cthulhu 7e", "Supplement", "PDF", 280, 94208, 2016, 190, ItemStatus::Cloud, "#7A2E3A", "Two-fisted action heroics against the Mythos.", None),
        LibraryItem::new("b21", "RuneQuest: Roleplaying in Glorantha", "Chaosium", "RuneQuest", "Core", "PDF", 448, 143360, 2018, 215, ItemStatus::Downloaded, "#7C3A24", "Bronze-age myth and magic in the world of Glorantha.", None),
        LibraryItem::new("b22", "Masks of Nyarlathotep", "Chaosium", "Call of Cthulhu 7e", "Adventure", "PDF", 656, 192512, 2018, 134, ItemStatus::Downloaded, "#232529", "Globe-spanning campaign to stop an apocalyptic cult.", None),
        LibraryItem::new("b23", "Dune: Adventures in the Imperium", "Modiphius", "Dune", "Core", "PDF", 336, 112640, 2021, 158, ItemStatus::Downloaded, "#8A5A1E", "Houses, intrigue, and survival on the desert planet.", None),
        LibraryItem::new("b24", "Star Trek Adventures", "Modiphius", "Star Trek", "Core", "PDF", 368, 118784, 2017, 300, ItemStatus::Cloud, "#1C2A44", "Explore strange new worlds in the final frontier.", None),
        LibraryItem::new("b25", "Conan: Adventures in an Age Undreamed Of", "Modiphius", "Conan", "Core", "PDF", 368, 123904, 2017, 276, ItemStatus::Cloud, "#7C3A24", "Sword-and-sorcery across the Hyborian Age.", None),
        LibraryItem::new("b26", "Achtung! Cthulhu", "Modiphius", "Achtung! Cthulhu", "Core", "PDF", 360, 115712, 2021, 144, ItemStatus::Downloaded, "#2E3A45", "Secret-war pulp horror against occult Nazi forces.", None),
        LibraryItem::new("b27", "Cyberpunk RED", "R. Talsorian Games", "Cyberpunk", "Core", "PDF", 456, 137216, 2020, 126, ItemStatus::Downloaded, "#7E2230", "Style over substance in the dark future of Night City.", None),
        LibraryItem::new("b28", "Numenera Discovery", "Monte Cook Games", "Numenera", "Core", "PDF", 416, 124928, 2018, 232, ItemStatus::Cloud, "#15403F", "Science-fantasy a billion years in Earth's future.", None),
        LibraryItem::new("b29", "Cypher System Rulebook", "Monte Cook Games", "Cypher System", "Core", "PDF", 416, 121856, 2019, 198, ItemStatus::Downloaded, "#2A2750", "The flexible engine behind Numenera, for any genre.", None),
        LibraryItem::new("b30", "Invisible Sun", "Monte Cook Games", "Invisible Sun", "Setting", "PDF", 240, 86016, 2018, 250, ItemStatus::Cloud, "#45264A", "Surreal magic and hidden worlds for dedicated tables.", None),
        LibraryItem::new("b31", "13th Age", "Pelgrane Press", "13th Age", "Core", "PDF", 320, 97280, 2013, 340, ItemStatus::Downloaded, "#7A2E3A", "d20 fantasy built around your character's unique edge.", None),
        LibraryItem::new("b32", "Trail of Cthulhu", "Pelgrane Press", "GUMSHOE", "Core", "PDF", 240, 72704, 2008, 355, ItemStatus::Cloud, "#232529", "Clue-driven 1930s investigative horror.", None),
        LibraryItem::new("b33", "Night's Black Agents", "Pelgrane Press", "GUMSHOE", "Core", "PDF", 232, 74752, 2012, 168, ItemStatus::Downloaded, "#182338", "Burned spies versus a vampyric conspiracy.", None),
        LibraryItem::new("b34", "Vampire: The Masquerade 5th Ed.", "Renegade Game Studios", "World of Darkness", "Core", "PDF", 416, 133120, 2018, 102, ItemStatus::Downloaded, "#6B2230", "Personal horror and intrigue among the undead.", None),
        LibraryItem::new("b35", "Scion: Origin", "Onyx Path", "Scion", "Core", "PDF", 240, 83968, 2019, 222, ItemStatus::Cloud, "#8A5A1E", "Mortal children of the gods in the modern world.", None),
        LibraryItem::new("b36", "Chronicles of Darkness", "Onyx Path", "World of Darkness", "Core", "PDF", 320, 99328, 2015, 260, ItemStatus::Cloud, "#232529", "A modern world of secret horrors lurking beneath.", None),
        LibraryItem::new("b37", "Dungeon Crawl Classics", "Goodman Games", "DCC RPG", "Core", "PDF", 488, 145408, 2012, 175, ItemStatus::Downloaded, "#8A5A1E", "Old-school sword-and-sorcery with deadly funnels.", None),
        LibraryItem::new("b38", "Mutant Crawl Classics", "Goodman Games", "MCC RPG", "Core", "PDF", 320, 103424, 2017, 192, ItemStatus::Cloud, "#46491F", "Post-apocalyptic gonzo science-fantasy crawling.", None),
        LibraryItem::new("b39", "Tome of Beasts", "Kobold Press", "Dungeons & Dragons 5e", "Bestiary", "PDF", 432, 129024, 2016, 138, ItemStatus::Downloaded, "#1B3A33", "More than four hundred new monsters for 5e.", None),
        LibraryItem::new("b40", "Tales of the Valiant", "Kobold Press", "Tales of the Valiant", "Core", "PDF", 360, 110592, 2024, 58, ItemStatus::Cloud, "#1C2A44", "A standalone evolution of the 5e ruleset.", None),
        LibraryItem::new("b41", "Warhammer Fantasy Roleplay", "Cubicle 7", "WFRP 4e", "Core", "PDF", 368, 119808, 2018, 205, ItemStatus::Downloaded, "#7A2E3A", "Grim, perilous adventure in the Old World.", None),
        LibraryItem::new("b42", "Wrath & Glory", "Cubicle 7", "Warhammer 40,000", "Core", "PDF", 456, 141312, 2020, 120, ItemStatus::Cloud, "#2E3A45", "Heroic action in the grim darkness of the far future.", None),
        LibraryItem::new("b43", "Avatar Legends", "Magpie Games", "Avatar", "Core", "PDF", 320, 101376, 2022, 110, ItemStatus::Downloaded, "#15403F", "Bend the elements and grow as a balanced hero.", None),
        LibraryItem::new("b44", "Masks: A New Generation", "Magpie Games", "Powered by the Apocalypse", "Core", "PDF", 224, 69632, 2016, 248, ItemStatus::Cloud, "#2A2750", "Teen superheroes finding out who they really are.", None),
        LibraryItem::new("b45", "Blades in the Dark", "Evil Hat", "Forged in the Dark", "Core", "PDF", 336, 96256, 2017, 84, ItemStatus::Downloaded, "#232529", "Daring scoundrels building a crew in a haunted city.", None),
        LibraryItem::new("b46", "Fate Core System", "Evil Hat", "Fate", "Core", "PDF", 302, 91136, 2013, 330, ItemStatus::Cloud, "#34234A", "A flexible, narrative engine for any setting.", None),
    ]
}

/// How the demo service answers.
#[derive(Clone, Copy, Debug, PartialEq, Eq, Structural)]
pub enum StubMode {
    /// Serves the demo catalog.
    Seeded,
    /// Serves an empty catalog.
    Empty,
    /// Fails every request with a network error.
    NetworkError,
}

/// An in-memory catalog service for demos and tests.
pub struct StubLibraryService {
    mode: StubMode,
}

/// The demo catalog with numeric ids `1..=46` in catalog order.
pub fn seeded_items() -> (items: Vec<LibraryItem>)
    ensures
        items@.len() == 46,
        forall|i: int| 0 <= i < items@.len() ==> (#[trigger] items@[i]).numeric_id == i + 1,
{
    let mut catalog = stub_catalog();
    let mut out: Vec<LibraryItem> = Vec::new();
    let mut n: u64 = 0;
    while catalog.len() > 0
        invariant
            out.len() == n,
            n + catalog.len() == 46,
            forall|i: int| 0 <= i < out@.len() ==> (#[trigger] out@[i]).numeric_id == i + 1,
        decreases catalog.len(),
    {
        let mut item = catalog.remove(0);
        n = n + 1;
        item.numeric_id = n;
        out.push(item);
    }
    out
}

fn service_error(kind: LibraryServiceErrorKind, message: &str) -> (e: LibraryServiceError)
    ensures
        e.kind == kind,
        e.message@ == message@,
{
    LibraryServiceError { kind, message: String::from_str(message) }
}

impl StubLibraryService {
    /// The mode the stub answers in.
    pub closed spec fn spec_mode(&self) -> StubMode {
        self.mode
    }

    /// Creates a stub answering in `mode`.
    pub fn new(mode: StubMode) -> (s: Self)
        ensures
            s.spec_mode() == mode,
    {
        StubLibraryService { mode }
    }
}

impl LibraryService for StubLibraryService {
    fn list_items(&self) -> (r: Result<Vec<LibraryItem>, LibraryServiceError>)
        ensures
            match self.spec_mode() {
                StubMode::Seeded => r matches Ok(items) && items@.len() == 46 && forall|i: int|
                    0 <= i < items@.len() ==> (#[trigger] items@[i]).numeric_id == i + 1,
                StubMode::Empty => r matches Ok(items) && items@.len() == 0,
                StubMode::NetworkError => r matches Err(e) && e.kind
                    == LibraryServiceErrorKind::Network,
            },
    {
        match self.mode {
            StubMode::Seeded => Ok(seeded_items()),
            StubMode::Empty => Ok(Vec::new()),
            StubMode::NetworkError => Err(
                service_error(LibraryServiceErrorKind::Network, "network unavailable"),
            ),
        }
    }

    fn get_item(&self, id: u64) -> (r: Result<LibraryItem, LibraryServiceError>)
        ensures
            match self.spec_mode() {
                StubMode::Seeded => if 1 <= id <= 46 {
                    r matches Ok(item) && item.numeric_id == id
                } else {
                    r matches Err(e) && e.kind == LibraryServiceErrorKind::NotFound
                },
                StubMode::Empty => r matches Err(e) && e.kind == LibraryServiceErrorKind::NotFound,
                StubMode::NetworkError => r matches Err(e) && e.kind
                    == LibraryServiceErrorKind::Network,
            },
    {
        match self.mode {
            StubMode::Seeded => {
                let mut items = seeded_items();
                let mut i: usize = 0;
                while i < items.len()
                    invariant
                        i <= items.len(),
                        items@.len() == 46,
                        self.spec_mode() == StubMode::Seeded,
                        forall|k: int| 0 <= k < items@.len() ==> (#[trigger] items@[k]).numeric_id == k + 1,
                        forall|k: int| 0 <= k < i ==> (#[trigger] items@[k]).numeric_id != id,
                    decreases items.len() - i,
                {
                    if items[i].numeric_id == id {
                        assert(items@[i as int].numeric_id == i + 1);
                        return Ok(items.remove(i));
                    }
                    i = i + 1;
                }
                assert(!(1 <= id <= 46)) by {
                    if 1 <= id <= 46 {
                        assert(items@[id - 1].numeric_id == id);
                    }
                }
                Err(service_error(LibraryServiceErrorKind::NotFound, "no item with that id"))
            },
            StubMode::Empty => Err(
                service_error(LibraryServiceErrorKind::NotFound, "no item with that id"),
            ),
            StubMode::NetworkError => Err(
                service_error(LibraryServiceErrorKind::Network, "network unavailable"),
            ),
        }
    }
}

} // verus!
