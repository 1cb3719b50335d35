use submig_lib::{get_migration, get_migrations, locate, Migration, Policy, SubmigError};
use submig_lib::{TopLevelItem, TypeExpr};

fn path(segments: &[&str]) -> TypeExpr {
    TypeExpr::Path(segments.iter().map(|segment| segment.to_string()).collect())
}

fn entries(names: &[&str]) -> Vec<Migration> {
    names.iter().map(|name| Migration::from(*name)).collect()
}

fn alias(name: &str, ty: TypeExpr) -> TopLevelItem {
    TopLevelItem::TypeAlias { name: name.to_string(), ty }
}

#[test]
fn a_path_gives_its_second_segment() {
    let t = path(&["pallet", "V0042"]);
    assert_eq!(get_migration(&t, Policy::Strict), Ok(entries(&["V0042"])));
    assert_eq!(get_migration(&t, Policy::Lenient), Ok(entries(&["V0042"])));
}

#[test]
fn a_longer_path_still_gives_its_second_segment() {
    let t = path(&["pallet", "migrations", "V0042"]);
    assert_eq!(get_migration(&t, Policy::Strict), Ok(entries(&["migrations"])));
}

#[test]
fn a_single_segment_is_non_standard() {
    let t = path(&["V0001"]);
    assert_eq!(get_migration(&t, Policy::Strict), Err(SubmigError::NonStandard));
    assert_eq!(get_migration(&t, Policy::Lenient), Ok(vec![Migration::NotOk()]));
}

#[test]
fn a_path_without_segments_is_non_standard() {
    let t = path(&[]);
    assert_eq!(get_migration(&t, Policy::Strict), Err(SubmigError::NonStandard));
    assert_eq!(get_migration(&t, Policy::Lenient), Ok(vec![Migration::NotOk()]));
}

#[test]
fn a_tuple_of_paths_gives_one_entry_each_in_order() {
    let t = TypeExpr::Tuple(vec![
        path(&["a", "V0003"]),
        path(&["b", "V0001"]),
        path(&["c", "Unreleased"]),
        path(&["d", "V0002"]),
    ]);
    let expected = entries(&["V0003", "V0001", "Unreleased", "V0002"]);
    assert_eq!(get_migration(&t, Policy::Strict), Ok(expected.clone()));
    assert_eq!(get_migration(&t, Policy::Lenient), Ok(expected));
}

#[test]
fn an_empty_tuple_gives_nothing() {
    let t = TypeExpr::Tuple(Vec::new());
    assert_eq!(get_migration(&t, Policy::Strict), Ok(Vec::new()));
    assert_eq!(get_migration(&t, Policy::Lenient), Ok(Vec::new()));
}

#[test]
fn parentheses_change_nothing() {
    let inner = TypeExpr::Tuple(vec![path(&["a", "V0001"]), path(&["b", "V0002"])]);
    let plain = get_migration(&inner, Policy::Strict);
    let wrapped = TypeExpr::Paren(Box::new(TypeExpr::Paren(Box::new(inner))));
    assert_eq!(get_migration(&wrapped, Policy::Strict), plain);
    assert_eq!(plain, Ok(entries(&["V0001", "V0002"])));
    let bad = TypeExpr::Paren(Box::new(path(&["V0001"])));
    assert_eq!(get_migration(&bad, Policy::Strict), Err(SubmigError::NonStandard));
    assert_eq!(get_migration(&bad, Policy::Lenient), Ok(vec![Migration::NotOk()]));
}

#[test]
fn nested_tuples_are_walked_depth_first() {
    let t = TypeExpr::Tuple(vec![
        path(&["a", "V0001"]),
        TypeExpr::Tuple(vec![
            path(&["b", "V0002"]),
            TypeExpr::Paren(Box::new(path(&["c", "V0003"]))),
            TypeExpr::Tuple(Vec::new()),
        ]),
        path(&["d", "V0004"]),
    ]);
    assert_eq!(
        get_migration(&t, Policy::Strict),
        Ok(entries(&["V0001", "V0002", "V0003", "V0004"]))
    );
}

#[test]
fn any_other_shape_is_non_standard() {
    assert_eq!(get_migration(&TypeExpr::Other, Policy::Strict), Err(SubmigError::NonStandard));
    assert_eq!(get_migration(&TypeExpr::Other, Policy::Lenient), Ok(vec![Migration::NotOk()]));
}

#[test]
fn the_strict_policy_fails_the_whole_tuple() {
    let t = TypeExpr::Tuple(vec![path(&["a", "V0001"]), TypeExpr::Other, path(&["b", "V0002"])]);
    assert_eq!(get_migration(&t, Policy::Strict), Err(SubmigError::NonStandard));
}

#[test]
fn the_lenient_policy_records_the_leaf_and_goes_on() {
    let t = TypeExpr::Tuple(vec![
        path(&["a", "V0001"]),
        TypeExpr::Other,
        path(&["lonely"]),
        path(&["b", "V0002"]),
    ]);
    assert_eq!(
        get_migration(&t, Policy::Lenient),
        Ok(vec![
            Migration::from("V0001"),
            Migration::NotOk(),
            Migration::NotOk(),
            Migration::from("V0002"),
        ])
    );
}

#[test]
fn the_default_policy_is_lenient() {
    assert_eq!(Policy::default(), Policy::Lenient);
}

#[test]
fn no_alias_is_located_among_no_items() {
    assert_eq!(locate(&Vec::new()), Ok(None));
}

#[test]
fn an_alias_of_another_name_is_not_located() {
    let items = vec![
        TopLevelItem::Other,
        alias("Migration", path(&["a", "V0001"])),
        alias("migrations", path(&["a", "V0002"])),
    ];
    assert_eq!(locate(&items), Ok(None));
}

#[test]
fn the_one_alias_is_located() {
    let items = vec![
        TopLevelItem::Other,
        alias("Executive", path(&["a", "V0001"])),
        alias("Migrations", path(&["b", "V0002"])),
        TopLevelItem::Other,
    ];
    assert_eq!(locate(&items), Ok(Some(&path(&["b", "V0002"]))));
}

#[test]
fn two_aliases_are_a_duplicate() {
    let items = vec![
        alias("Migrations", path(&["a", "V0001"])),
        TopLevelItem::Other,
        alias("Migrations", path(&["b", "V0002"])),
    ];
    assert_eq!(locate(&items), Err(SubmigError::Duplicate));
    let three = vec![
        alias("Migrations", TypeExpr::Other),
        alias("Migrations", TypeExpr::Other),
        alias("Migrations", TypeExpr::Other),
    ];
    assert_eq!(locate(&three), Err(SubmigError::Duplicate));
}

#[test]
fn the_migrations_of_an_item() {
    let item = alias("Migrations", TypeExpr::Tuple(vec![path(&["a", "V0001"])]));
    assert_eq!(get_migrations(&item, Policy::Strict), Ok(entries(&["V0001"])));
    assert_eq!(
        get_migrations(&TopLevelItem::Other, Policy::Lenient),
        Err(SubmigError::NonStandard)
    );
}

#[test]
fn the_text_of_an_entry() {
    assert_eq!(Migration::from("V0001").to_string(), "V0001");
    assert_eq!(Migration::NotOk().to_string(), "err");
    assert_eq!(Migration::from("V0001"), Migration::Named("V0001".to_string()));
}
