use fishnet::gameplay::{contains_name, fishing, roll_rank, FishCatalog, FishStyle};
use fishnet::event::{Action, Notice};
use fishnet::handlers::{catch, handle_pesca, sort_by_rarity, AppState};
use fishnet::offer::InventoryItem;

#[test]
fn each_fish_has_the_rank_of_its_list() {
    let catalog = FishCatalog::new();
    assert_eq!(catalog.get_rarity_rank("sardinha"), 0);
    assert_eq!(catalog.get_rarity_rank("anchova"), 0);
    assert_eq!(catalog.get_rarity_rank("pirarucu"), 1);
    assert_eq!(catalog.get_rarity_rank("água-viva"), 2);
    assert_eq!(catalog.get_rarity_rank("peixe-mão-vermelho"), 3);
    assert_eq!(catalog.get_rarity_rank("dragão-marinho-folhado"), 4);
    assert_eq!(catalog.get_rarity_rank("peixe-morcego-de-lábios-vermelhos"), 5);
    assert_eq!(catalog.get_rarity_rank("tubarão-elefante"), 6);
    assert_eq!(catalog.get_rarity_rank("unicorn"), 0);
    assert_eq!(catalog.get_rarity_rank(""), 0);
    assert_eq!(FishCatalog::default().get_rarity_rank("quimera"), 4);
}

#[test]
fn each_rank_has_its_colour() {
    let catalog = FishCatalog::new();
    let style = |red, green, blue| FishStyle { red, green, blue, bold: true };
    assert_eq!(catalog.get_style_for_fish("sardinha"), style(100, 255, 160));
    assert_eq!(catalog.get_style_for_fish("unicorn"), style(100, 255, 160));
    assert_eq!(catalog.get_style_for_fish("betta"), style(80, 150, 255));
    assert_eq!(catalog.get_style_for_fish("carpa"), style(160, 15, 230));
    assert_eq!(catalog.get_style_for_fish("peixe-leão"), style(255, 80, 135));
    assert_eq!(catalog.get_style_for_fish("quimera"), style(240, 200, 60));
    assert_eq!(catalog.get_style_for_fish("raia-jamanta"), style(255, 130, 60));
    assert_eq!(catalog.get_style_for_fish("peixe-bolha"), style(150, 0, 60));
}

#[test]
fn a_roll_draws_the_rank_by_its_share_of_the_chances() {
    let expected = [
        (0, 6),
        (1, 5),
        (2, 5),
        (3, 4),
        (7, 4),
        (8, 3),
        (19, 3),
        (20, 2),
        (49, 2),
        (50, 1),
        (99, 1),
        (100, 0),
        (199, 0),
        (200, 6),
        (201, 5),
        (4294967295, 1),
    ];
    for (roll, rank) in expected {
        assert_eq!(roll_rank(roll), rank, "{}", roll);
    }
    let mut counts = [0u32; 7];
    for roll in 0..200 {
        counts[roll_rank(roll) as usize] += 1;
    }
    assert_eq!(counts, [100, 50, 30, 12, 5, 2, 1]);
}

#[test]
fn a_roll_draws_among_the_fish_of_its_rank() {
    let catalog = FishCatalog::new();
    let sizes = [(0, 6), (1, 5), (3, 7), (8, 8), (20, 8), (50, 13), (100, 16)];
    for (roll, size) in sizes {
        let pool = catalog.pool(roll);
        assert_eq!(pool.len(), size);
        for fish in pool {
            assert_eq!(catalog.get_rarity_rank(fish), roll_rank(roll));
        }
    }
    assert!(contains_name(catalog.pool(0), "peixe-pescador"));
    assert!(!contains_name(catalog.pool(0), "sardinha"));
}

#[test]
fn the_fish_that_is_caught_is_in_the_catalog() {
    let catalog = FishCatalog::new();
    for _ in 0..200 {
        let fish = fishing(&catalog);
        let rank = catalog.get_rarity_rank(&fish);
        let pool = (0..200).map(|roll| catalog.pool(roll)).find(|p| contains_name(p, &fish));
        assert!(pool.is_some(), "{}", fish);
        assert!(rank <= 6);
    }
}

#[test]
fn a_catch_goes_into_the_basket() {
    let mut app = AppState::new();
    let actions = catch(&mut app, "quimera".to_string());
    assert_eq!(
        actions,
        vec![Action::Notify(Notice::Caught {
            fish: "quimera".to_string(),
            style: FishStyle { red: 240, green: 200, blue: 60, bold: true },
        })]
    );
    catch(&mut app, "quimera".to_string());
    assert_eq!(app.basket.quantity("quimera"), 2);
    let actions = handle_pesca(&mut app);
    assert_eq!(actions.len(), 1);
    let total: u32 = app.basket.items().iter().map(|i| i.quantity).sum();
    assert_eq!(total, 3);
}

#[test]
fn an_inventory_is_shown_with_the_commonest_fish_first() {
    let catalog = FishCatalog::new();
    let item = |kind: &str, quantity: u32| InventoryItem::new(kind.to_string(), quantity);
    let items = vec![
        item("tubarão-duende", 1),
        item("truta", 2),
        item("quimera", 3),
        item("unicorn", 4),
        item("bagre", 5),
        item("atum", 6),
        item("carpa", 7),
        item("peixe-leão", 8),
        item("raia-jamanta", 9),
        item("betta", 10),
    ];
    assert_eq!(
        sort_by_rarity(&items, &catalog),
        vec![
            item("truta", 2),
            item("unicorn", 4),
            item("atum", 6),
            item("bagre", 5),
            item("betta", 10),
            item("carpa", 7),
            item("peixe-leão", 8),
            item("quimera", 3),
            item("raia-jamanta", 9),
            item("tubarão-duende", 1),
        ]
    );
    assert_eq!(sort_by_rarity(&vec![], &catalog), vec![]);
}
