//! The fishing game: the catalog of fish by rarity, the basket that holds the
//! catch, and the draw of a fish.
use crate::text::{str_eq, views};
use rand::seq::IndexedRandom;
use vstd::prelude::*;

verus! {

/// How a fish is shown: a colour, in bold or not.
#[derive(Debug, Clone, Copy, PartialEq, Eq, Structural)]
pub struct FishStyle {
    pub red: u8,
    pub green: u8,
    pub blue: u8,
    pub bold: bool,
}

/// Every fish there is, by rarity.
pub struct FishCatalog {
    abyssals: Vec<String>,
    mythicals: Vec<String>,
    legendaries: Vec<String>,
    shiny: Vec<String>,
    epics: Vec<String>,
    rares: Vec<String>,
    commons: Vec<String>,
}

/// A catalog as the contracts speak of it.
pub struct CatalogView {
    pub abyssals: Seq<Seq<char>>,
    pub mythicals: Seq<Seq<char>>,
    pub legendaries: Seq<Seq<char>>,
    pub shiny: Seq<Seq<char>>,
    pub epics: Seq<Seq<char>>,
    pub rares: Seq<Seq<char>>,
    pub commons: Seq<Seq<char>>,
}

/// The common fish.
pub open spec fn commons() -> Seq<Seq<char>> {
    seq![
        "sardinha"@,
        "atum"@,
        "dourada"@,
        "cação"@,
        "traíra"@,
        "arenque"@,
        "robalo"@,
        "tambaqui"@,
        "corvina"@,
        "cavala"@,
        "truta"@,
        "pescada"@,
        "pacu"@,
        "lambari"@,
        "merluza"@,
        "anchova"@,
    ]
}

/// The rare fish.
pub open spec fn rares() -> Seq<Seq<char>> {
    seq![
        "pirarucu"@,
        "tucunaré"@,
        "salmão"@,
        "bacalhau"@,
        "pintado"@,
        "betta"@,
        "bagre"@,
        "peixe-palhaço"@,
        "garoupa"@,
        "ouriço"@,
        "peixe-cirurgião"@,
        "peixe-borboleta"@,
        "piranha"@,
    ]
}

/// The epic fish.
pub open spec fn epics() -> Seq<Seq<char>> {
    seq![
        "robalo-gigante"@,
        "peixe-pedra"@,
        "carpa"@,
        "poraquê"@,
        "peixe-voador"@,
        "baiacu"@,
        "peixe-lua"@,
        "água-viva"@,
    ]
}

/// The shiny fish.
pub open spec fn shiny() -> Seq<Seq<char>> {
    seq![
        "botia-beijadora"@,
        "peixe-filhote-de-diabo"@,
        "peixe-mão-vermelho"@,
        "peixe-anjo-rainha"@,
        "peixe-lanterna"@,
        "dragão-marinho-comum"@,
        "peixe-leão"@,
        "cavalo-marinho"@,
    ]
}

/// The legendary fish.
pub open spec fn legendaries() -> Seq<Seq<char>> {
    seq![
        "peixe-serra"@,
        "marlin-azul"@,
        "peixe-espada"@,
        "baleia-jubarte"@,
        "enguia-pelicano"@,
        "quimera"@,
        "dragão-marinho-folhado"@,
    ]
}

/// The mythical fish.
pub open spec fn mythicals() -> Seq<Seq<char>> {
    seq![
        "peixe-napoleão"@,
        "raia-jamanta"@,
        "polvo-de-anéis-azuis"@,
        "peixe-mandarim"@,
        "peixe-morcego-de-lábios-vermelhos"@,
    ]
}

/// The abyssal fish.
pub open spec fn abyssals() -> Seq<Seq<char>> {
    seq![
        "peixe-bolha"@,
        "peixe-pescador"@,
        "peixe-olho-de-barril"@,
        "lula-vampira-do-inferno"@,
        "tubarão-duende"@,
        "tubarão-elefante"@,
    ]
}

/// The catalog of the game.
pub open spec fn catalog() -> CatalogView {
    CatalogView {
        abyssals: abyssals(),
        mythicals: mythicals(),
        legendaries: legendaries(),
        shiny: shiny(),
        epics: epics(),
        rares: rares(),
        commons: commons(),
    }
}

/// The rank of a fish: 6 for an abyssal one, then 5 for mythical, 4 for
/// legendary, 3 for shiny, 2 for epic, 1 for rare, and 0 for a common fish and
/// for a name that the catalog does not hold.
pub open spec fn rarity_rank(c: CatalogView, name: Seq<char>) -> u8 {
    if c.abyssals.contains(name) {
        6
    } else if c.mythicals.contains(name) {
        5
    } else if c.legendaries.contains(name) {
        4
    } else if c.shiny.contains(name) {
        3
    } else if c.epics.contains(name) {
        2
    } else if c.rares.contains(name) {
        1
    } else {
        0
    }
}

/// The fish of one rank; the common ones for a rank that is none.
pub open spec fn list_of(c: CatalogView, rank: u8) -> Seq<Seq<char>> {
    if rank == 6 {
        c.abyssals
    } else if rank == 5 {
        c.mythicals
    } else if rank == 4 {
        c.legendaries
    } else if rank == 3 {
        c.shiny
    } else if rank == 2 {
        c.epics
    } else if rank == 1 {
        c.rares
    } else {
        c.commons
    }
}

/// The style in which a fish of rank `rank` is shown.
pub open spec fn style_of_rank(rank: u8) -> FishStyle {
    if rank == 6 {
        FishStyle { red: 150, green: 0, blue: 60, bold: true }
    } else if rank == 5 {
        FishStyle { red: 255, green: 130, blue: 60, bold: true }
    } else if rank == 4 {
        FishStyle { red: 240, green: 200, blue: 60, bold: true }
    } else if rank == 3 {
        FishStyle { red: 255, green: 80, blue: 135, bold: true }
    } else if rank == 2 {
        FishStyle { red: 160, green: 15, blue: 230, bold: true }
    } else if rank == 1 {
        FishStyle { red: 80, green: 150, blue: 255, bold: true }
    } else {
        FishStyle { red: 100, green: 255, blue: 160, bold: true }
    }
}

/// The rank that the roll `x` draws: of 200 equal chances, 1 is abyssal, 2
/// are mythical, 5 legendary, 12 shiny, 30 epic, 50 rare and 100 common.
pub open spec fn rank_of_roll(x: u32) -> u8 {
    let r = x % 200;
    if r == 0 {
        6
    } else if r <= 2 {
        5
    } else if r <= 7 {
        4
    } else if r <= 19 {
        3
    } else if r <= 49 {
        2
    } else if r <= 99 {
        1
    } else {
        0
    }
}

/// The rank that the roll `x` draws.
pub fn roll_rank(x: u32) -> (rank: u8)
    ensures
        rank == rank_of_roll(x),
{
    let r = x % 200;
    if r == 0 {
        6
    } else if r <= 2 {
        5
    } else if r <= 7 {
        4
    } else if r <= 19 {
        3
    } else if r <= 49 {
        2
    } else if r <= 99 {
        1
    } else {
        0
    }
}

fn push_name(list: &mut Vec<String>, name: &str)
    ensures
        views(final(list)@) == views(old(list)@).push(name@),
        final(list)@.len() == old(list)@.len() + 1,
{
    list.push(name.to_owned());
    assert(views(list@) =~= views(old(list)@).push(name@));
}

fn empty_list() -> (list: Vec<String>)
    ensures
        views(list@) == Seq::<Seq<char>>::empty(),
{
    let list: Vec<String> = Vec::new();
    assert(views(list@) =~= Seq::<Seq<char>>::empty());
    list
}

fn common_fish() -> (list: Vec<String>)
    ensures
        views(list@) == commons(),
        list@.len() > 0,
{
    let mut list = empty_list();
    push_name(&mut list, "sardinha");
    push_name(&mut list, "atum");
    push_name(&mut list, "dourada");
    push_name(&mut list, "cação");
    push_name(&mut list, "traíra");
    push_name(&mut list, "arenque");
    push_name(&mut list, "robalo");
    push_name(&mut list, "tambaqui");
    push_name(&mut list, "corvina");
    push_name(&mut list, "cavala");
    push_name(&mut list, "truta");
    push_name(&mut list, "pescada");
    push_name(&mut list, "pacu");
    push_name(&mut list, "lambari");
    push_name(&mut list, "merluza");
    push_name(&mut list, "anchova");
    assert(views(list@) =~= commons());
    list
}

fn rare_fish() -> (list: Vec<String>)
    ensures
        views(list@) == rares(),
        list@.len() > 0,
{
    let mut list = empty_list();
    push_name(&mut list, "pirarucu");
    push_name(&mut list, "tucunaré");
    push_name(&mut list, "salmão");
    push_name(&mut list, "bacalhau");
    push_name(&mut list, "pintado");
    push_name(&mut list, "betta");
    push_name(&mut list, "bagre");
    push_name(&mut list, "peixe-palhaço");
    push_name(&mut list, "garoupa");
    push_name(&mut list, "ouriço");
    push_name(&mut list, "peixe-cirurgião");
    push_name(&mut list, "peixe-borboleta");
    push_name(&mut list, "piranha");
    assert(views(list@) =~= rares());
    list
}

fn epic_fish() -> (list: Vec<String>)
    ensures
        views(list@) == epics(),
        list@.len() > 0,
{
    let mut list = empty_list();
    push_name(&mut list, "robalo-gigante");
    push_name(&mut list, "peixe-pedra");
    push_name(&mut list, "carpa");
    push_name(&mut list, "poraquê");
    push_name(&mut list, "peixe-voador");
    push_name(&mut list, "baiacu");
    push_name(&mut list, "peixe-lua");
    push_name(&mut list, "água-viva");
    assert(views(list@) =~= epics());
    list
}

fn shiny_fish() -> (list: Vec<String>)
    ensures
        views(list@) == shiny(),
        list@.len() > 0,
{
    let mut list = empty_list();
    push_name(&mut list, "botia-beijadora");
    push_name(&mut list, "peixe-filhote-de-diabo");
    push_name(&mut list, "peixe-mão-vermelho");
    push_name(&mut list, "peixe-anjo-rainha");
    push_name(&mut list, "peixe-lanterna");
    push_name(&mut list, "dragão-marinho-comum");
    push_name(&mut list, "peixe-leão");
    push_name(&mut list, "cavalo-marinho");
    assert(views(list@) =~= shiny());
    list
}

fn legendary_fish() -> (list: Vec<String>)
    ensures
        views(list@) == legendaries(),
        list@.len() > 0,
{
    let mut list = empty_list();
    push_name(&mut list, "peixe-serra");
    push_name(&mut list, "marlin-azul");
    push_name(&mut list, "peixe-espada");
    push_name(&mut list, "baleia-jubarte");
    push_name(&mut list, "enguia-pelicano");
    push_name(&mut list, "quimera");
    push_name(&mut list, "dragão-marinho-folhado");
    assert(views(list@) =~= legendaries());
    list
}

fn mythical_fish() -> (list: Vec<String>)
    ensures
        views(list@) == mythicals(),
        list@.len() > 0,
{
    let mut list = empty_list();
    push_name(&mut list, "peixe-napoleão");
    push_name(&mut list, "raia-jamanta");
    push_name(&mut list, "polvo-de-anéis-azuis");
    push_name(&mut list, "peixe-mandarim");
    push_name(&mut list, "peixe-morcego-de-lábios-vermelhos");
    assert(views(list@) =~= mythicals());
    list
}

fn abyssal_fish() -> (list: Vec<String>)
    ensures
        views(list@) == abyssals(),
        list@.len() > 0,
{
    let mut list = empty_list();
    push_name(&mut list, "peixe-bolha");
    push_name(&mut list, "peixe-pescador");
    push_name(&mut list, "peixe-olho-de-barril");
    push_name(&mut list, "lula-vampira-do-inferno");
    push_name(&mut list, "tubarão-duende");
    push_name(&mut list, "tubarão-elefante");
    assert(views(list@) =~= abyssals());
    list
}

/// Whether `list` holds the name `name`.
pub fn contains_name(list: &Vec<String>, name: &str) -> (r: bool)
    ensures
        r == views(list@).contains(name@),
{
    let mut i: usize = 0;
    while i < list.len()
        invariant
            i <= list.len(),
            forall|j: int| 0 <= j < i ==> views(list@)[j] != name@,
        decreases list.len() - i,
    {
        if str_eq(list[i].as_str(), name) {
            assert(views(list@)[i as int] == name@);
            return true;
        }
        i += 1;
    }
    false
}

impl View for FishCatalog {
    type V = CatalogView;

    closed spec fn view(&self) -> CatalogView {
        CatalogView {
            abyssals: views(self.abyssals@),
            mythicals: views(self.mythicals@),
            legendaries: views(self.legendaries@),
            shiny: views(self.shiny@),
            epics: views(self.epics@),
            rares: views(self.rares@),
            commons: views(self.commons@),
        }
    }
}

impl FishCatalog {
    #[verifier::type_invariant]
    spec fn stocked(self) -> bool {
        &&& self.abyssals.len() > 0
        &&& self.mythicals.len() > 0
        &&& self.legendaries.len() > 0
        &&& self.shiny.len() > 0
        &&& self.epics.len() > 0
        &&& self.rares.len() > 0
        &&& self.commons.len() > 0
    }

    /// The catalog of the game.
    pub fn new() -> (c: Self)
        ensures
            c@ == catalog(),
    {
        FishCatalog {
            commons: common_fish(),
            rares: rare_fish(),
            epics: epic_fish(),
            shiny: shiny_fish(),
            legendaries: legendary_fish(),
            mythicals: mythical_fish(),
            abyssals: abyssal_fish(),
        }
    }

    /// The rank of the fish `fish_name`, from 0 for a common one to 6 for an abyssal one.
    pub fn get_rarity_rank(&self, fish_name: &str) -> (rank: u8)
        ensures
            rank == rarity_rank(self@, fish_name@),
    {
        if contains_name(&self.abyssals, fish_name) {
            6
        } else if contains_name(&self.mythicals, fish_name) {
            5
        } else if contains_name(&self.legendaries, fish_name) {
            4
        } else if contains_name(&self.shiny, fish_name) {
            3
        } else if contains_name(&self.epics, fish_name) {
            2
        } else if contains_name(&self.rares, fish_name) {
            1
        } else {
            0
        }
    }

    /// The style in which the fish `fish_name` is shown, by its rarity.
    pub fn get_style_for_fish(&self, fish_name: &str) -> (style: FishStyle)
        ensures
            style == style_of_rank(rarity_rank(self@, fish_name@)),
    {
        let rank = self.get_rarity_rank(fish_name);
        if rank == 6 {
            FishStyle { red: 150, green: 0, blue: 60, bold: true }
        } else if rank == 5 {
            FishStyle { red: 255, green: 130, blue: 60, bold: true }
        } else if rank == 4 {
            FishStyle { red: 240, green: 200, blue: 60, bold: true }
        } else if rank == 3 {
            FishStyle { red: 255, green: 80, blue: 135, bold: true }
        } else if rank == 2 {
            FishStyle { red: 160, green: 15, blue: 230, bold: true }
        } else if rank == 1 {
            FishStyle { red: 80, green: 150, blue: 255, bold: true }
        } else {
            FishStyle { red: 100, green: 255, blue: 160, bold: true }
        }
    }

    /// The fish among which the roll `x` draws: those of the rank that it
    /// draws, of which there is at least one.
    pub fn pool(&self, x: u32) -> (list: &Vec<String>)
        ensures
            views(list@) == list_of(self@, rank_of_roll(x)),
            list.len() > 0,
    {
        proof {
            use_type_invariant(self);
        }
        let rank = roll_rank(x);
        if rank == 6 {
            &self.abyssals
        } else if rank == 5 {
            &self.mythicals
        } else if rank == 4 {
            &self.legendaries
        } else if rank == 3 {
            &self.shiny
        } else if rank == 2 {
            &self.epics
        } else if rank == 1 {
            &self.rares
        } else {
            &self.commons
        }
    }
}

impl Default for FishCatalog {
    fn default() -> (c: Self)
        ensures
            c@ == catalog(),
    {
        FishCatalog::new()
    }
}

/// A number drawn by `rand::random`: any `u32` may come back.
#[verifier::external_body]
fn random_roll() -> (x: u32) {
    rand::random::<u32>()
}

/// One item of `list` drawn by `IndexedRandom::choose` with the generator of
/// the thread: an item of the list, whichever, and none only where the list is empty.
#[verifier::external_body]
fn choose_name(list: &Vec<String>) -> (r: Option<&String>)
    ensures
        r is None <==> list@.len() == 0,
        r matches Some(s) ==> list@.contains(*s),
{
    list.choose(&mut rand::rng())
}

/// Draws a fish: a roll picks the rarity, and chance picks a fish of that rarity.
pub fn fishing(fish_catalog: &FishCatalog) -> (fish: String)
    ensures
        exists|rank: u8| #[trigger] list_of(fish_catalog@, rank).contains(fish@),
{
    let x = random_roll();
    let list = fish_catalog.pool(x);
    match choose_name(list) {
        Some(name) => {
            let fish = name.clone();
            proof {
                let i = choose|i: int| 0 <= i < list@.len() && list@[i] == *name;
                assert(views(list@)[i] == fish@);
                assert(list_of(fish_catalog@, rank_of_roll(x)).contains(fish@));
            }
            fish
        },
        None => String::new(),
    }
}

} // verus!
