use dt_connector::col_value::ColValue;
use dt_connector::compare::{
    compare_data_for_tbs, compare_row, compare_row_data, compare_tb_data, contains_db_tb, get_compare_db_tbs, TbData,
};
use dt_connector::config::DbType;
use dt_connector::error::Error;
use dt_connector::router::{ColRename, ColRoute, RdbRouter, TbRoute};
use dt_connector::row_data::{ColMap, RowData, RowType};

fn s(text: &str) -> String {
    text.to_string()
}

fn row(pairs: Vec<(&str, ColValue)>) -> RowData {
    let mut m = ColMap::new();
    for (name, value) in pairs {
        m.insert(s(name), value);
    }
    RowData::build_insert_row_data(m, &s("db"), &s("t"))
}

fn text(v: &str) -> ColValue {
    ColValue::String(s(v))
}

fn tb(src: (&str, &str), dst: (&str, &str), src_data: Vec<RowData>, dst_data: Vec<RowData>) -> TbData {
    TbData { src_db_tb: (s(src.0), s(src.1)), dst_db_tb: (s(dst.0), s(dst.1)), src_data, dst_data }
}

fn no_routes() -> RdbRouter {
    RdbRouter::new(vec![], vec![])
}

#[test]
fn equal_rows_match() {
    let src = vec![row(vec![("pk", ColValue::Long(1)), ("v", text("a"))]), row(vec![("pk", ColValue::Long(2))])];
    let dst = vec![
        row(vec![("v", text("a")), ("pk", ColValue::Long(1)), ("extra", ColValue::Null)]),
        row(vec![("pk", ColValue::Long(2))]),
    ];
    assert_eq!(compare_row_data(&src, &dst, None, &DbType::Pg, &DbType::Pg), Ok(true));
    assert_eq!(compare_row_data(&src, &src, None, &DbType::Pg, &DbType::Pg), Ok(true));
    assert_eq!(compare_row_data(&vec![], &vec![], None, &DbType::Pg, &DbType::Pg), Ok(true));
}

#[test]
fn one_differing_value_fails_the_comparison() {
    let src = vec![row(vec![("pk", ColValue::Long(1)), ("v", text("a"))]), row(vec![("pk", ColValue::Long(2))])];
    let dst = vec![row(vec![("pk", ColValue::Long(1)), ("v", text("b"))]), row(vec![("pk", ColValue::Long(2))])];
    assert_eq!(compare_row_data(&src, &dst, None, &DbType::Pg, &DbType::Pg), Ok(false));
    assert_eq!(
        compare_row(&src[0], &dst[0], None, &DbType::Pg, &DbType::Pg),
        Ok(false)
    );
    assert_eq!(compare_row(&src[1], &dst[1], None, &DbType::Pg, &DbType::Pg), Ok(true));
}

#[test]
fn rows_that_cannot_be_compared() {
    let one = vec![row(vec![("pk", ColValue::Long(1))])];
    assert_eq!(compare_row_data(&one, &vec![], None, &DbType::Pg, &DbType::Pg), Err(Error::Consistency));
    let missing = vec![row(vec![("other", ColValue::Long(1))])];
    assert_eq!(compare_row_data(&one, &missing, None, &DbType::Pg, &DbType::Pg), Err(Error::Consistency));
    let delete = RowData { row_type: RowType::Delete, before: one[0].after.clone(), after: None, ..one[0].clone() };
    assert_eq!(compare_row_data(&one, &vec![delete.clone()], None, &DbType::Pg, &DbType::Pg), Err(Error::Consistency));
    assert_eq!(compare_row_data(&vec![delete], &one, None, &DbType::Pg, &DbType::Pg), Err(Error::Consistency));
    let mixed_src = vec![row(vec![("a", ColValue::Long(1)), ("b", ColValue::Long(1))])];
    let mixed_dst = vec![row(vec![("a", ColValue::Long(2))])];
    assert_eq!(compare_row_data(&mixed_src, &mixed_dst, None, &DbType::Pg, &DbType::Pg), Err(Error::Consistency));
}

#[test]
fn renamed_columns_are_compared_under_their_new_name() {
    let renames = vec![ColRename { src: s("v"), dst: s("w") }];
    let src = vec![row(vec![("pk", ColValue::Long(1)), ("v", text("a"))])];
    let dst = vec![row(vec![("pk", ColValue::Long(1)), ("w", text("a"))])];
    assert_eq!(compare_row_data(&src, &dst, Some(&renames), &DbType::Pg, &DbType::Pg), Ok(true));
    assert_eq!(compare_row_data(&src, &dst, None, &DbType::Pg, &DbType::Pg), Err(Error::Consistency));
    let other = vec![row(vec![("pk", ColValue::Long(1)), ("w", text("b")), ("v", text("a"))])];
    assert_eq!(compare_row_data(&src, &other, Some(&renames), &DbType::Pg, &DbType::Pg), Ok(false));
}

#[test]
fn rows_compare_across_engines_by_projection() {
    let src = vec![row(vec![("y", ColValue::Year(2024)), ("f", ColValue::Float(s("NaN")))])];
    let dst = vec![row(vec![("y", ColValue::Long(2024)), ("f", ColValue::Double(s("NaN")))])];
    assert_eq!(compare_row_data(&src, &dst, None, &DbType::Mysql, &DbType::Starrocks), Ok(true));
    assert_eq!(compare_row_data(&src, &dst, None, &DbType::Mysql, &DbType::Mysql), Ok(false));
}

#[test]
fn table_is_compared_with_the_routers_renames() {
    let router = RdbRouter::new(
        vec![TbRoute { src_db: s("src"), src_tb: s("t"), dst_db: s("dst"), dst_tb: s("u") }],
        vec![ColRoute { db: s("src"), tb: s("t"), cols: vec![ColRename { src: s("v"), dst: s("w") }] }],
    );
    let t = tb(("src", "t"), ("dst", "u"), vec![row(vec![("v", text("a"))])], vec![row(vec![("w", text("a"))])]);
    assert_eq!(compare_tb_data(&t, &router, &DbType::Pg, &DbType::Pg), Ok(true));
    assert_eq!(compare_tb_data(&t, &no_routes(), &DbType::Pg, &DbType::Pg), Err(Error::Consistency));
}

#[test]
fn filtered_table_must_be_empty_at_the_destination() {
    let filtered = vec![(s("src"), s("tmp_1"))];
    assert!(contains_db_tb(&filtered, &(s("src"), s("tmp_1"))));
    assert!(!contains_db_tb(&filtered, &(s("src"), s("keep"))));
    let tbs = vec![
        tb(("src", "tmp_1"), ("dst", "tmp_1"), vec![row(vec![("pk", ColValue::Long(1))])], vec![]),
        tb(
            ("src", "keep"),
            ("dst", "keep"),
            vec![row(vec![("pk", ColValue::Long(1))])],
            vec![row(vec![("pk", ColValue::Long(1))])],
        ),
    ];
    assert_eq!(compare_data_for_tbs(&tbs, &filtered, &no_routes(), &DbType::Pg, &DbType::Pg), Ok(true));
    let leaked = vec![tb(
        ("src", "tmp_1"),
        ("dst", "tmp_1"),
        vec![row(vec![("pk", ColValue::Long(1))])],
        vec![row(vec![("pk", ColValue::Long(1))])],
    )];
    assert_eq!(
        compare_data_for_tbs(&leaked, &filtered, &no_routes(), &DbType::Pg, &DbType::Pg),
        Err(Error::Consistency)
    );
}

#[test]
fn one_table_that_differs_makes_the_run_false() {
    let tbs = vec![
        tb(
            ("src", "a"),
            ("dst", "a"),
            vec![row(vec![("pk", ColValue::Long(1))])],
            vec![row(vec![("pk", ColValue::Long(2))])],
        ),
        tb(
            ("src", "b"),
            ("dst", "b"),
            vec![row(vec![("pk", ColValue::Long(1))])],
            vec![row(vec![("pk", ColValue::Long(1))])],
        ),
    ];
    assert_eq!(compare_data_for_tbs(&tbs, &vec![], &no_routes(), &DbType::Pg, &DbType::Pg), Ok(false));
    assert_eq!(compare_data_for_tbs(&vec![], &vec![], &no_routes(), &DbType::Pg, &DbType::Pg), Ok(true));
    let uneven = vec![tb(("src", "a"), ("dst", "a"), vec![row(vec![("pk", ColValue::Long(1))])], vec![])];
    assert_eq!(
        compare_data_for_tbs(&uneven, &vec![], &no_routes(), &DbType::Pg, &DbType::Pg),
        Err(Error::Consistency)
    );
}

#[test]
fn tables_to_compare_are_those_created_and_not_filtered() {
    let router = RdbRouter::new(
        vec![TbRoute { src_db: s("src"), src_tb: s("t"), dst_db: s("dst"), dst_tb: s("u") }],
        vec![],
    );
    let ddl = vec![(s("src"), s("t")), (s("src"), s("tmp_1"))];
    let dml = vec![(s("src"), s("late")), (s("src"), s("tmp_1"))];
    let filtered = vec![(s("src"), s("tmp_1"))];
    let (src, dst) = get_compare_db_tbs(&ddl, &dml, &filtered, &router);
    assert_eq!(src, vec![(s("src"), s("t")), (s("src"), s("late"))]);
    assert_eq!(dst, vec![(s("dst"), s("u")), (s("src"), s("late"))]);
    let (src, dst) = get_compare_db_tbs(&vec![], &vec![], &filtered, &router);
    assert_eq!(src, vec![]);
    assert_eq!(dst, vec![]);
}

#[test]
fn routed_row_matches_its_source() {
    let router = RdbRouter::new(
        vec![TbRoute { src_db: s("db"), src_tb: s("t"), dst_db: s("dst"), dst_tb: s("u") }],
        vec![ColRoute {
            db: s("db"),
            tb: s("t"),
            cols: vec![ColRename { src: s("v"), dst: s("w") }, ColRename { src: s("pk"), dst: s("id") }],
        }],
    );
    let src = row(vec![("pk", ColValue::Long(1)), ("v", text("a")), ("keep", ColValue::Null)]);
    let dst = router.route_row(src.clone());
    assert_eq!(dst.schema, "dst");
    assert_eq!(dst.tb, "u");
    let renames = router.get_col_map(&s("db"), &s("t"));
    assert_eq!(compare_row(&src, &dst, renames, &DbType::Mysql, &DbType::Pg), Ok(true));
    assert_eq!(compare_row(&src, &dst, renames, &DbType::Pg, &DbType::Pg), Ok(true));
    assert_eq!(compare_row(&src, &dst, None, &DbType::Pg, &DbType::Pg), Err(Error::Consistency));
}
