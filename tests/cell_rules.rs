use cell_defense::cell_rules::{CellCosts, CellEvents, CellRules};

const ALL: [CellRules; 4] = [
    CellRules::Empty,
    CellRules::ForceEmpty,
    CellRules::BasicFilled,
    CellRules::PermaCell,
];

fn neighbors(live: usize) -> Vec<CellRules> {
    let mut v = Vec::new();
    for i in 0..8 {
        v.push(if i < live { CellRules::BasicFilled } else { CellRules::Empty });
    }
    v
}

#[test]
fn decode_of_encode_is_identity() {
    for k in ALL {
        assert_eq!(CellRules::from_id(k.to_id()), k);
    }
}

#[test]
fn ids_are_fixed() {
    assert_eq!(CellRules::ForceEmpty.to_id(), 0);
    assert_eq!(CellRules::Empty.to_id(), 1);
    assert_eq!(CellRules::BasicFilled.to_id(), 2);
    assert_eq!(CellRules::PermaCell.to_id(), 3);
}

#[test]
fn ids_decode() {
    assert_eq!(CellRules::from_id(0), CellRules::ForceEmpty);
    assert_eq!(CellRules::from_id(1), CellRules::Empty);
    assert_eq!(CellRules::from_id(2), CellRules::BasicFilled);
    assert_eq!(CellRules::from_id(3), CellRules::PermaCell);
}

#[test]
fn costs() {
    let c = CellCosts::default_costs();
    assert_eq!(CellRules::Empty.to_cost(&c), 0);
    assert_eq!(CellRules::ForceEmpty.to_cost(&c), 0);
    assert_eq!(CellRules::BasicFilled.to_cost(&c), 6);
}

#[test]
fn configured_costs() {
    let c = CellCosts::new(1, 2).unwrap();
    assert_eq!(CellRules::Empty.to_cost(&c), 1);
    assert_eq!(CellRules::BasicFilled.to_cost(&c), 2);
    assert_eq!(CellRules::ForceEmpty.to_cost(&c), 0);
    assert!(CellCosts::new(-1, 2).is_none());
    assert!(CellCosts::new(0, -2).is_none());
}

#[test]
fn placeability_and_replaceability() {
    assert!(!CellRules::ForceEmpty.can_set());
    assert!(CellRules::Empty.can_set());
    assert!(CellRules::BasicFilled.can_set());
    assert!(CellRules::PermaCell.can_set());
    assert!(CellRules::Empty.user_replaceable());
    assert!(CellRules::BasicFilled.user_replaceable());
    assert!(!CellRules::PermaCell.user_replaceable());
    assert!(!CellRules::ForceEmpty.user_replaceable());
}

#[test]
fn atlas_coords() {
    assert_eq!(CellRules::Empty.to_atlas_coords(), (0, 0));
    assert_eq!(CellRules::BasicFilled.to_atlas_coords(), (1, 0));
    assert_eq!(CellRules::PermaCell.to_atlas_coords(), (2, 0));
}

#[test]
fn count_ignores_empty_and_force_empty() {
    let v = vec![
        CellRules::Empty,
        CellRules::ForceEmpty,
        CellRules::BasicFilled,
        CellRules::PermaCell,
        CellRules::BasicFilled,
        CellRules::Empty,
        CellRules::ForceEmpty,
        CellRules::Empty,
    ];
    assert_eq!(CellRules::count_non_empty(&v), 3);
    assert_eq!(CellRules::count_non_empty(&neighbors(0)), 0);
    assert_eq!(CellRules::count_non_empty(&neighbors(8)), 8);
}

#[test]
fn life_rule_for_every_count() {
    for c in 0..=8usize {
        let n = neighbors(c);
        let stays = CellRules::BasicFilled.next_cell(&n) == CellRules::BasicFilled;
        assert_eq!(stays, (2..=3).contains(&c), "count {}", c);
        let born = CellRules::Empty.next_cell(&n) == CellRules::BasicFilled;
        assert_eq!(born, c == 3, "count {}", c);
        assert_eq!(CellRules::ForceEmpty.next_cell(&n), CellRules::ForceEmpty);
        assert_eq!(CellRules::PermaCell.next_cell(&n), CellRules::PermaCell);
    }
}

#[test]
fn at_most_one_event_per_cell() {
    for k in ALL {
        for c in 0..=8usize {
            assert!(k.events(&neighbors(c)).len() <= 1);
        }
    }
}

#[test]
fn events_by_count() {
    assert_eq!(CellRules::Empty.events(&neighbors(3)), vec![CellEvents::CellCreate]);
    assert_eq!(CellRules::Empty.events(&neighbors(2)), vec![]);
    assert_eq!(CellRules::BasicFilled.events(&neighbors(4)), vec![CellEvents::OverpopulateDeath]);
    assert_eq!(CellRules::BasicFilled.events(&neighbors(5)), vec![CellEvents::ExtraOverpopulateDeath]);
    assert_eq!(CellRules::BasicFilled.events(&neighbors(3)), vec![]);
    assert_eq!(CellRules::PermaCell.events(&neighbors(8)), vec![]);
    assert_eq!(CellRules::ForceEmpty.events(&neighbors(3)), vec![]);
}

#[test]
fn four_neighbors_both_decays_and_raises_event() {
    let n = neighbors(4);
    assert_eq!(CellRules::BasicFilled.next_cell(&n), CellRules::Empty);
    assert_eq!(CellRules::BasicFilled.events(&n), vec![CellEvents::OverpopulateDeath]);
}

#[test]
fn event_names_and_indexes() {
    assert_eq!(CellEvents::OverpopulateDeath.get_event_name(), "overpopulate_death");
    assert_eq!(CellEvents::ExtraOverpopulateDeath.get_event_name(), "extra_overpopulate_death");
    assert_eq!(CellEvents::CellCreate.get_event_name(), "cell_create");
    assert_eq!(CellEvents::OverpopulateDeath.get_event_index(), 0);
    assert_eq!(CellEvents::ExtraOverpopulateDeath.get_event_index(), 1);
    assert_eq!(CellEvents::CellCreate.get_event_index(), 2);
}
