use std::collections::VecDeque;

use dt_connector::buffer::{push_dt_data, push_row, wait_task_finish, Buffer, PushStep, WaitStep, MAX_BUFFER_SIZE};
use dt_connector::check_extractor::{check_row, PgCheckExtractor};
use dt_connector::check_log::{next_batch_end, CheckLog, LogType};
use dt_connector::col_value::ColValue;
use dt_connector::dt_data::{DdlData, DdlType, DtData, DtItem, Position, StructKind, StructModel};
use dt_connector::error::Error;
use dt_connector::filter::{pattern_matches, RdbFilter, TbPattern};
use dt_connector::pg_meta::{PgColMeta, PgColType, PgTbMeta};
use dt_connector::pg_meta_manager::PgMetaManager;
use dt_connector::rdb_query_builder::RdbQueryBuilder;
use dt_connector::router::{rename_col, ColRename, ColRoute, RdbRouter, TbRoute};
use dt_connector::row_data::{ColMap, RowData, RowType};
use dt_connector::struct_extractor::{ExtractStep, MysqlStructExtractor};

fn s(text: &str) -> String {
    text.to_string()
}

fn cols(pairs: Vec<(&str, ColValue)>) -> ColMap {
    let mut m = ColMap::new();
    for (name, value) in pairs {
        m.insert(s(name), value);
    }
    m
}

fn insert_row(schema: &str, tb: &str, pairs: Vec<(&str, ColValue)>) -> RowData {
    RowData::build_insert_row_data(cols(pairs), &s(schema), &s(tb))
}

fn heartbeat() -> DtItem {
    DtItem { dt_data: DtData::Heartbeat, position: Position::Unset }
}

fn commit(xid: &str) -> DtItem {
    DtItem { dt_data: DtData::Commit { xid: s(xid) }, position: Position::Token(s(xid)) }
}

fn meta_t() -> PgTbMeta {
    PgTbMeta {
        schema: s("public"),
        tb: s("t"),
        cols: vec![
            PgColMeta { name: s("pk"), col_type: PgColType::Int4 },
            PgColMeta { name: s("v"), col_type: PgColType::Text },
        ],
        key_cols: vec![s("pk")],
    }
}

fn check_log(log_type: LogType, names: Vec<&str>, values: Vec<Option<&str>>) -> CheckLog {
    CheckLog {
        schema: s("public"),
        tb: s("t"),
        log_type,
        cols: names.into_iter().map(s).collect(),
        col_values: values.into_iter().map(|v| v.map(s)).collect(),
    }
}

fn model(kind: StructKind, schema: &str, tb: &str, name: &str) -> StructModel {
    StructModel { kind, schema: s(schema), tb: s(tb), name: s(name), definition: s("def") }
}

fn all_tables() -> RdbFilter {
    RdbFilter::new(vec![s("*")], vec![], vec![], vec![])
}

fn extractor(router: RdbRouter) -> PgCheckExtractor {
    PgCheckExtractor { check_log_dir: s("logs"), batch_size: 2, router }
}

fn no_routes() -> RdbRouter {
    RdbRouter::new(vec![], vec![])
}

#[test]
fn column_map_last_insert_wins() {
    let mut m = ColMap::new();
    assert_eq!(m.get(&s("a")), None);
    m.insert(s("a"), ColValue::Long(1));
    m.insert(s("b"), ColValue::Long(2));
    m.insert(s("a"), ColValue::Long(3));
    assert_eq!(m.get(&s("a")), Some(&ColValue::Long(3)));
    assert_eq!(m.get(&s("b")), Some(&ColValue::Long(2)));
    assert_eq!(m.get(&s("A")), None);
    assert!(m.contains(&s("b")));
    assert!(!m.contains(&s("c")));
    assert_eq!(m.duplicate(), m);
}

#[test]
fn insert_row_has_only_the_image_after() {
    let row = insert_row("public", "t", vec![("pk", ColValue::Long(1))]);
    assert_eq!(row.schema, "public");
    assert_eq!(row.tb, "t");
    assert_eq!(row.row_type, RowType::Insert);
    assert_eq!(row.before, None);
    assert_eq!(row.after, Some(cols(vec![("pk", ColValue::Long(1))])));
    assert!(row.is_wf());
    let broken = RowData { row_type: RowType::Delete, ..row };
    assert!(!broken.is_wf());
}

#[test]
fn buffer_is_first_in_first_out() {
    let mut buffer = Buffer::new(3);
    assert!(buffer.is_empty());
    assert_eq!(buffer.capacity(), 3);
    assert_eq!(buffer.push(commit("1")), Ok(()));
    assert_eq!(buffer.push(heartbeat()), Ok(()));
    assert_eq!(buffer.push(commit("2")), Ok(()));
    assert_eq!(buffer.len(), 3);
    assert!(buffer.is_full());
    assert_eq!(buffer.pop(), Some(commit("1")));
    assert_eq!(buffer.pop(), Some(heartbeat()));
    assert_eq!(buffer.pop(), Some(commit("2")));
    assert_eq!(buffer.pop(), None);
    assert!(buffer.is_empty());
}

#[test]
fn full_buffer_hands_the_item_back() {
    let mut buffer = Buffer::new(1);
    assert_eq!(buffer.push(commit("1")), Ok(()));
    assert_eq!(buffer.push(commit("2")), Err(commit("2")));
    assert_eq!(buffer.len(), 1);
    assert_eq!(buffer.pop(), Some(commit("1")));
    assert_eq!(buffer.push(commit("2")), Ok(()));
    assert_eq!(buffer.pop(), Some(commit("2")));
}

#[test]
fn buffer_size_must_be_positive_and_bounded() {
    assert!(matches!(Buffer::with_size(0), Err(Error::Config)));
    assert!(matches!(Buffer::with_size(MAX_BUFFER_SIZE + 1), Err(Error::Config)));
    let buffer = Buffer::with_size(16);
    assert!(matches!(buffer, Ok(_)));
    if let Ok(b) = buffer {
        assert_eq!(b.capacity(), 16);
        assert_eq!(b.len(), 0);
    }
}

#[test]
fn task_is_finished_only_when_drained_and_shut_down() {
    let mut buffer = Buffer::new(2);
    assert_eq!(wait_task_finish(&buffer, false), WaitStep::Sleep { millis: 100 });
    assert_eq!(wait_task_finish(&buffer, true), WaitStep::Finished);
    assert_eq!(buffer.push(heartbeat()), Ok(()));
    assert_eq!(wait_task_finish(&buffer, true), WaitStep::Sleep { millis: 100 });
    assert_eq!(wait_task_finish(&buffer, false), WaitStep::Sleep { millis: 100 });
    assert_eq!(buffer.len(), 1);
    assert_eq!(buffer.pop(), Some(heartbeat()));
    assert_eq!(wait_task_finish(&buffer, true), WaitStep::Finished);
}

#[test]
fn push_under_backpressure_and_shutdown() {
    let mut buffer = Buffer::new(1);
    assert_eq!(push_dt_data(&mut buffer, DtData::Heartbeat, Position::Unset, false), Ok(PushStep::Accepted));
    assert_eq!(
        push_dt_data(&mut buffer, DtData::Commit { xid: s("7") }, Position::Token(s("p")), false),
        Ok(PushStep::Retry { item: DtItem { dt_data: DtData::Commit { xid: s("7") }, position: Position::Token(s("p")) } })
    );
    assert_eq!(push_dt_data(&mut buffer, DtData::Heartbeat, Position::Unset, true), Err(Error::Shutdown));
    assert_eq!(buffer.len(), 1);
    assert_eq!(buffer.pop(), Some(heartbeat()));
    assert_eq!(push_dt_data(&mut buffer, DtData::Heartbeat, Position::Unset, true), Ok(PushStep::Accepted));
}

#[test]
fn changes_of_one_key_keep_their_order() {
    let mut buffer = Buffer::new(8);
    let insert = insert_row("src", "t", vec![("pk", ColValue::Long(1)), ("v", ColValue::String(s("a")))]);
    let update = RowData {
        schema: s("src"),
        tb: s("t"),
        row_type: RowType::Update,
        before: Some(cols(vec![("pk", ColValue::Long(1)), ("v", ColValue::String(s("a")))])),
        after: Some(cols(vec![("pk", ColValue::Long(1)), ("v", ColValue::String(s("b")))])),
    };
    let delete = RowData {
        schema: s("src"),
        tb: s("t"),
        row_type: RowType::Delete,
        before: Some(cols(vec![("pk", ColValue::Long(1)), ("v", ColValue::String(s("b")))])),
        after: None,
    };
    assert!(update.is_wf());
    assert!(delete.is_wf());
    for row in vec![insert, update, delete] {
        assert_eq!(push_row(&mut buffer, row, Position::Unset, None, false), Ok(PushStep::Accepted));
    }
    let mut kinds = Vec::new();
    while let Some(item) = buffer.pop() {
        match item.dt_data {
            DtData::Dml { row_data } => kinds.push(row_data.row_type),
            _ => panic!("only rows were pushed"),
        }
    }
    assert_eq!(kinds, vec![RowType::Insert, RowType::Update, RowType::Delete]);
}

#[test]
fn table_route_with_identity_fallback() {
    let router = RdbRouter::new(
        vec![
            TbRoute { src_db: s("src"), src_tb: s("t"), dst_db: s("dst"), dst_tb: s("u") },
            TbRoute { src_db: s("src"), src_tb: s("t"), dst_db: s("other"), dst_tb: s("w") },
        ],
        vec![],
    );
    assert_eq!(router.get_tb_map(&s("src"), &s("t")), (&s("dst"), &s("u")));
    assert_eq!(router.get_tb_map(&s("src"), &s("x")), (&s("src"), &s("x")));
    assert_eq!(router.get_tb_map(&s("SRC"), &s("t")), (&s("SRC"), &s("t")));
    assert_eq!(router.get_col_map(&s("src"), &s("t")), None);
}

#[test]
fn column_route_with_identity_fallback() {
    let renames = vec![ColRename { src: s("a"), dst: s("b") }, ColRename { src: s("a"), dst: s("c") }];
    let router = RdbRouter::new(vec![], vec![ColRoute { db: s("src"), tb: s("t"), cols: renames.clone() }]);
    assert_eq!(router.get_col_map(&s("src"), &s("t")), Some(&renames));
    assert_eq!(router.get_col_map(&s("src"), &s("u")), None);
    assert_eq!(rename_col(Some(&renames), &s("a")), &s("b"));
    assert_eq!(rename_col(Some(&renames), &s("z")), &s("z"));
    assert_eq!(rename_col(None, &s("a")), &s("a"));
}

#[test]
fn routed_row_lands_in_the_destination_table() {
    let router = RdbRouter::new(
        vec![TbRoute { src_db: s("src"), src_tb: s("t"), dst_db: s("dst"), dst_tb: s("u") }],
        vec![ColRoute { db: s("src"), tb: s("t"), cols: vec![ColRename { src: s("v"), dst: s("w") }] }],
    );
    let row = insert_row("src", "t", vec![("pk", ColValue::Long(1)), ("v", ColValue::String(s("a")))]);
    let routed = router.route_row(row);
    assert_eq!(routed, insert_row("dst", "u", vec![("pk", ColValue::Long(1)), ("w", ColValue::String(s("a")))]));
    let other = insert_row("src", "x", vec![("v", ColValue::Long(1))]);
    assert_eq!(router.route_row(other.clone()), other);
}

#[test]
fn push_row_routes_before_it_pushes() {
    let router = RdbRouter::new(
        vec![TbRoute { src_db: s("src"), src_tb: s("t"), dst_db: s("dst"), dst_tb: s("u") }],
        vec![],
    );
    let mut buffer = Buffer::new(1);
    let row = insert_row("src", "t", vec![("pk", ColValue::Long(1)), ("v", ColValue::String(s("a")))]);
    assert_eq!(
        push_row(&mut buffer, row.clone(), Position::Token(s("lsn")), Some(&router), false),
        Ok(PushStep::Accepted)
    );
    let expected = insert_row("dst", "u", vec![("pk", ColValue::Long(1)), ("v", ColValue::String(s("a")))]);
    assert_eq!(
        push_row(&mut buffer, row.clone(), Position::Unset, Some(&router), false),
        Ok(PushStep::Retry { item: DtItem { dt_data: DtData::Dml { row_data: expected.clone() }, position: Position::Unset } })
    );
    assert_eq!(push_row(&mut buffer, row, Position::Unset, Some(&router), true), Err(Error::Shutdown));
    assert_eq!(
        buffer.pop(),
        Some(DtItem { dt_data: DtData::Dml { row_data: expected }, position: Position::Token(s("lsn")) })
    );
}

#[test]
fn wildcards_in_patterns() {
    assert!(pattern_matches(&s("tmp_%"), &s("tmp_1")));
    assert!(pattern_matches(&s("tmp_%"), &s("tmp_")));
    assert!(!pattern_matches(&s("tmp_%"), &s("keep")));
    assert!(pattern_matches(&s("*"), &s("")));
    assert!(pattern_matches(&s("a*b*c"), &s("axxbyyc")));
    assert!(!pattern_matches(&s("a*b*c"), &s("axxbyy")));
    assert!(pattern_matches(&s("t?"), &s("t1")));
    assert!(!pattern_matches(&s("t?"), &s("t")));
    assert!(!pattern_matches(&s("t?"), &s("t12")));
    assert!(pattern_matches(&s(""), &s("")));
    assert!(!pattern_matches(&s(""), &s("a")));
    assert!(!pattern_matches(&s("T"), &s("t")));
}

#[test]
fn filter_leaves_out_ignored_and_unwanted_tables() {
    let filter = RdbFilter::new(
        vec![s("src")],
        vec![s("sys*")],
        vec![TbPattern { db: s("other"), tb: s("keep") }],
        vec![TbPattern { db: s("src"), tb: s("tmp_%") }],
    );
    assert!(filter.filter_tb(&s("src"), &s("tmp_1")));
    assert!(!filter.filter_tb(&s("src"), &s("keep")));
    assert!(!filter.filter_tb(&s("other"), &s("keep")));
    assert!(filter.filter_tb(&s("other"), &s("x")));
    assert!(filter.filter_tb(&s("sys_a"), &s("t")));
    assert!(filter.filter_tb(&s("nowhere"), &s("t")));
}

#[test]
fn struct_objects_are_emitted_tables_first() {
    let extractor = MysqlStructExtractor {
        db: s("src"),
        filter: RdbFilter::new(vec![s("src")], vec![], vec![], vec![TbPattern { db: s("src"), tb: s("tmp_%") }]),
    };
    let tables = vec![model(StructKind::Table, "src", "t", "t"), model(StructKind::Table, "src", "tmp_1", "tmp_1")];
    let indexes = vec![model(StructKind::Index, "src", "t", "idx"), model(StructKind::Index, "else", "t", "idx")];
    let constraints = vec![model(StructKind::Constraint, "src", "t", "chk")];
    let order = extractor.emission_order(&tables, &indexes, &constraints);
    let expected: VecDeque<StructModel> = vec![
        model(StructKind::Table, "src", "t", "t"),
        model(StructKind::Index, "src", "t", "idx"),
        model(StructKind::Constraint, "src", "t", "chk"),
    ]
    .into_iter()
    .collect();
    assert_eq!(order, expected);
}

#[test]
fn fetcher_has_the_extractors_database_and_filter() {
    let extractor = MysqlStructExtractor { db: s("src"), filter: all_tables() };
    let fetcher = extractor.build_fetcher();
    assert_eq!(fetcher.db, &s("src"));
    assert_eq!(fetcher.filter, Some(&all_tables()));
    assert!(fetcher.in_scope(&model(StructKind::Table, "src", "t", "t")));
    assert!(!fetcher.in_scope(&model(StructKind::Table, "dst", "t", "t")));
}

#[test]
fn struct_object_is_pushed_as_a_schema_change_of_unknown_kind() {
    let extractor = MysqlStructExtractor { db: s("src"), filter: all_tables() };
    let mut buffer = Buffer::new(1);
    let meta = model(StructKind::Table, "src", "t", "t");
    assert_eq!(extractor.push_dt_data(&mut buffer, &meta, false), Ok(PushStep::Accepted));
    let item = DtItem {
        dt_data: DtData::Ddl {
            ddl_data: DdlData { schema: s("src"), query: s(""), meta: Some(meta.clone()), ddl_type: DdlType::Unknown },
        },
        position: Position::Unset,
    };
    assert_eq!(extractor.push_dt_data(&mut buffer, &meta, false), Ok(PushStep::Retry { item: item.clone() }));
    assert_eq!(extractor.push_dt_data(&mut buffer, &meta, true), Err(Error::Shutdown));
    assert_eq!(buffer.pop(), Some(item));
    assert_eq!(buffer.pop(), None);
}

#[test]
fn struct_extraction_yields_when_the_buffer_is_full() {
    let extractor = MysqlStructExtractor { db: s("src"), filter: all_tables() };
    let mut buffer = Buffer::new(2);
    let mut pending: VecDeque<StructModel> = vec![
        model(StructKind::Table, "src", "a", "a"),
        model(StructKind::Table, "src", "b", "b"),
        model(StructKind::Index, "src", "a", "i"),
    ]
    .into_iter()
    .collect();
    assert_eq!(extractor.extract_internal(&mut buffer, &mut pending, false), Ok(ExtractStep::Yield));
    assert_eq!(buffer.len(), 2);
    assert_eq!(pending.len(), 1);
    assert_eq!(extractor.extract_internal(&mut buffer, &mut pending, true), Err(Error::Shutdown));
    assert_eq!(pending.len(), 1);
    let mut names = Vec::new();
    while let Some(item) = buffer.pop() {
        match item.dt_data {
            DtData::Ddl { ddl_data } => names.push(ddl_data.meta.map(|m| m.name)),
            _ => panic!("only schema changes were pushed"),
        }
    }
    assert_eq!(names, vec![Some(s("a")), Some(s("b"))]);
    assert_eq!(extractor.extract_internal(&mut buffer, &mut pending, true), Ok(ExtractStep::Pushed));
    assert_eq!(pending.len(), 0);
    assert_eq!(buffer.len(), 1);
    assert_eq!(extractor.extract_internal(&mut buffer, &mut pending, false), Ok(ExtractStep::Pushed));
}

#[test]
fn batches_are_contiguous_entries_of_one_group() {
    let mut other = check_log(LogType::Miss, vec!["pk"], vec![Some("9")]);
    other.tb = s("u");
    let logs = vec![
        check_log(LogType::Miss, vec!["pk"], vec![Some("1")]),
        check_log(LogType::Miss, vec!["pk"], vec![Some("2")]),
        check_log(LogType::Miss, vec!["pk"], vec![Some("3")]),
        check_log(LogType::Diff, vec!["pk"], vec![Some("4")]),
        other,
        check_log(LogType::Miss, vec!["pk"], vec![Some("5")]),
    ];
    assert_eq!(next_batch_end(&logs, 0, 2), Ok(2));
    assert_eq!(next_batch_end(&logs, 2, 2), Ok(3));
    assert_eq!(next_batch_end(&logs, 0, 10), Ok(3));
    assert_eq!(next_batch_end(&logs, 3, 10), Ok(4));
    assert_eq!(next_batch_end(&logs, 4, 10), Ok(5));
    assert_eq!(next_batch_end(&logs, 5, 1), Ok(6));
    assert_eq!(next_batch_end(&logs, 6, 1), Err(Error::Config));
    assert_eq!(next_batch_end(&logs, 0, 0), Err(Error::Config));
}

#[test]
fn check_log_entries_become_insert_rows() {
    let e = extractor(no_routes());
    let logs = vec![
        check_log(LogType::Miss, vec!["pk", "v"], vec![Some("1"), Some("a")]),
        check_log(LogType::Miss, vec!["pk", "v"], vec![Some("2"), None]),
    ];
    let rows = e.build_check_row_datas(&logs, &meta_t());
    assert_eq!(
        rows,
        Ok(vec![
            insert_row("public", "t", vec![("pk", ColValue::Long(1)), ("v", ColValue::String(s("a")))]),
            insert_row("public", "t", vec![("pk", ColValue::Long(2)), ("v", ColValue::Null)]),
        ])
    );
    assert_eq!(e.build_check_row_datas(&vec![], &meta_t()), Ok(vec![]));
}

#[test]
fn check_log_entries_that_cannot_be_read() {
    let e = extractor(no_routes());
    let unknown = vec![check_log(LogType::Miss, vec!["nope"], vec![Some("1")])];
    assert_eq!(e.build_check_row_datas(&unknown, &meta_t()), Err(Error::Schema));
    let unparseable = vec![check_log(LogType::Miss, vec!["pk"], vec![Some("one")])];
    assert_eq!(e.build_check_row_datas(&unparseable, &meta_t()), Err(Error::Decode));
    let short = vec![check_log(LogType::Miss, vec!["pk", "v"], vec![Some("1")])];
    assert_eq!(e.build_check_row_datas(&short, &meta_t()), Err(Error::Decode));
    let first_error_wins = vec![
        check_log(LogType::Miss, vec!["pk"], vec![Some("1")]),
        check_log(LogType::Miss, vec!["pk", "nope"], vec![Some("x"), Some("1")]),
        check_log(LogType::Miss, vec!["nope"], vec![Some("1")]),
    ];
    assert_eq!(e.build_check_row_datas(&first_error_wins, &meta_t()), Err(Error::Decode));
}

#[test]
fn keyed_read_of_one_row() {
    let meta = meta_t();
    let builder = RdbQueryBuilder::new_for_pg(&meta);
    let row = insert_row("public", "t", vec![("pk", ColValue::Long(1)), ("v", ColValue::String(s("a")))]);
    let q = builder.get_select_query(&row);
    assert!(matches!(q, Ok(_)));
    if let Ok(q) = q {
        assert_eq!(q.sql, "SELECT \"pk\",\"v\" FROM \"public\".\"t\" WHERE \"pk\" = $1");
        assert_eq!(q.cols, vec![s("pk"), s("v")]);
        assert_eq!(q.binds, vec![ColValue::Long(1)]);
    }
}

#[test]
fn keyed_read_of_a_batch_with_a_composite_key() {
    let meta = PgTbMeta {
        schema: s("s"),
        tb: s("we\"ird"),
        cols: vec![
            PgColMeta { name: s("a"), col_type: PgColType::Int4 },
            PgColMeta { name: s("b"), col_type: PgColType::Text },
            PgColMeta { name: s("v"), col_type: PgColType::Text },
        ],
        key_cols: vec![s("a"), s("b")],
    };
    let builder = RdbQueryBuilder::new_for_pg(&meta);
    let rows = vec![
        insert_row("s", "t", vec![("a", ColValue::Long(0)), ("b", ColValue::String(s("z")))]),
        insert_row("s", "t", vec![("a", ColValue::Long(1)), ("b", ColValue::String(s("x")))]),
        insert_row("s", "t", vec![("b", ColValue::String(s("y"))), ("a", ColValue::Long(2))]),
    ];
    let q = builder.get_batch_select_query(&rows, 1, 2);
    assert!(matches!(q, Ok(_)));
    if let Ok(q) = q {
        assert_eq!(
            q.sql,
            "SELECT \"a\",\"b\",\"v\" FROM \"s\".\"we\"\"ird\" WHERE (\"a\",\"b\") IN (($1,$2),($3,$4))"
        );
        assert_eq!(q.cols, vec![s("a"), s("b"), s("v")]);
        assert_eq!(
            q.binds,
            vec![ColValue::Long(1), ColValue::String(s("x")), ColValue::Long(2), ColValue::String(s("y"))]
        );
    }
    let q = builder.get_select_query(&rows[0]);
    assert!(matches!(q, Ok(_)));
    if let Ok(q) = q {
        assert_eq!(q.sql, "SELECT \"a\",\"b\",\"v\" FROM \"s\".\"we\"\"ird\" WHERE \"a\" = $1 AND \"b\" = $2");
        assert_eq!(q.binds, vec![ColValue::Long(0), ColValue::String(s("z"))]);
    }
}

#[test]
fn placeholders_run_past_nine() {
    let meta = meta_t();
    let builder = RdbQueryBuilder::new_for_pg(&meta);
    let mut rows = Vec::new();
    for i in 0..11 {
        rows.push(insert_row("public", "t", vec![("pk", ColValue::Long(i))]));
    }
    let q = builder.get_batch_select_query(&rows, 0, 11);
    assert!(matches!(q, Ok(_)));
    if let Ok(q) = q {
        assert_eq!(
            q.sql,
            "SELECT \"pk\",\"v\" FROM \"public\".\"t\" WHERE (\"pk\") IN (($1),($2),($3),($4),($5),($6),($7),($8),($9),($10),($11))"
        );
        assert_eq!(q.binds.len(), 11);
        assert_eq!(q.binds[10], ColValue::Long(10));
    }
}

#[test]
fn reads_that_cannot_be_built() {
    let meta = meta_t();
    let builder = RdbQueryBuilder::new_for_pg(&meta);
    let keyless = insert_row("public", "t", vec![("v", ColValue::String(s("a")))]);
    assert_eq!(builder.get_select_query(&keyless), Err(Error::Query));
    let delete = RowData { row_type: RowType::Delete, before: keyless.after.clone(), after: None, ..keyless.clone() };
    assert_eq!(builder.get_select_query(&delete), Err(Error::Query));
    let rows = vec![insert_row("public", "t", vec![("pk", ColValue::Long(1))])];
    assert_eq!(builder.get_batch_select_query(&rows, 0, 0), Err(Error::Query));
    assert_eq!(builder.get_batch_select_query(&rows, 0, 2), Err(Error::Query));
    assert_eq!(builder.get_batch_select_query(&rows, 2, 1), Err(Error::Query));
    assert_eq!(builder.get_batch_select_query(&rows, 0, 70000), Err(Error::Query));
    let no_key = PgTbMeta { key_cols: vec![], ..meta_t() };
    let builder = RdbQueryBuilder::new_for_pg(&no_key);
    assert_eq!(builder.get_select_query(&rows[0]), Err(Error::Query));
    assert_eq!(builder.get_batch_select_query(&rows, 0, 1), Err(Error::Query));
}

#[test]
fn batch_of_check_logs_becomes_one_read() {
    let e = extractor(no_routes());
    assert_eq!(e.batch_query(&vec![], &meta_t()), Ok(None));
    let one = vec![check_log(LogType::Diff, vec!["pk", "v"], vec![Some("1"), Some("a")])];
    let q = e.batch_query(&one, &meta_t());
    assert!(matches!(q, Ok(Some(_))));
    if let Ok(Some(q)) = q {
        assert_eq!(q.sql, "SELECT \"pk\",\"v\" FROM \"public\".\"t\" WHERE \"pk\" = $1");
        assert_eq!(q.binds, vec![ColValue::Long(1)]);
    }
    let two = vec![
        check_log(LogType::Miss, vec!["pk"], vec![Some("1")]),
        check_log(LogType::Miss, vec!["pk"], vec![Some("2")]),
    ];
    let q = e.batch_query(&two, &meta_t());
    assert!(matches!(q, Ok(Some(_))));
    if let Ok(Some(q)) = q {
        assert_eq!(q.sql, "SELECT \"pk\",\"v\" FROM \"public\".\"t\" WHERE (\"pk\") IN (($1),($2))");
        assert_eq!(q.binds, vec![ColValue::Long(1), ColValue::Long(2)]);
    }
    let bad = vec![check_log(LogType::Miss, vec!["pk"], vec![Some("x")])];
    assert_eq!(e.batch_query(&bad, &meta_t()), Err(Error::Decode));
    let keyless = vec![check_log(LogType::Miss, vec!["v"], vec![Some("x")])];
    assert_eq!(e.batch_query(&keyless, &meta_t()), Err(Error::Query));
}

#[test]
fn diff_row_becomes_an_update_with_both_images() {
    let row = insert_row("public", "t", vec![("pk", ColValue::Long(1)), ("v", ColValue::String(s("a")))]);
    let image = cols(vec![("pk", ColValue::Long(1)), ("v", ColValue::String(s("a")))]);
    let stamped = check_row(row.clone(), &LogType::Diff);
    assert_eq!(stamped.row_type, RowType::Update);
    assert_eq!(stamped.before, Some(image.clone()));
    assert_eq!(stamped.after, Some(image));
    assert!(stamped.is_wf());
    assert_eq!(check_row(row.clone(), &LogType::Miss), row);
}

#[test]
fn check_diff_yields_an_update_at_the_buffer() {
    let e = extractor(no_routes());
    let mut buffer = Buffer::new(4);
    let mut rows: VecDeque<RowData> = VecDeque::new();
    rows.push_back(insert_row("public", "t", vec![("pk", ColValue::Long(1)), ("v", ColValue::String(s("a")))]));
    assert_eq!(e.batch_extract(&mut buffer, &mut rows, &LogType::Diff, false), Ok(ExtractStep::Pushed));
    assert_eq!(rows.len(), 0);
    let image = cols(vec![("pk", ColValue::Long(1)), ("v", ColValue::String(s("a")))]);
    assert_eq!(
        buffer.pop(),
        Some(DtItem {
            dt_data: DtData::Dml {
                row_data: RowData {
                    schema: s("public"),
                    tb: s("t"),
                    row_type: RowType::Update,
                    before: Some(image.clone()),
                    after: Some(image),
                },
            },
            position: Position::Unset,
        })
    );
    assert_eq!(buffer.pop(), None);
}

#[test]
fn check_rows_are_routed_and_wait_for_room() {
    let router = RdbRouter::new(
        vec![TbRoute { src_db: s("public"), src_tb: s("t"), dst_db: s("public"), dst_tb: s("u") }],
        vec![],
    );
    let e = extractor(router);
    let mut buffer = Buffer::new(1);
    let mut rows: VecDeque<RowData> = VecDeque::new();
    rows.push_back(insert_row("public", "t", vec![("pk", ColValue::Long(1))]));
    rows.push_back(insert_row("public", "t", vec![("pk", ColValue::Long(2))]));
    assert_eq!(e.batch_extract(&mut buffer, &mut rows, &LogType::Miss, false), Ok(ExtractStep::Yield));
    assert_eq!(rows.len(), 1);
    assert_eq!(e.batch_extract(&mut buffer, &mut rows, &LogType::Miss, true), Err(Error::Shutdown));
    assert_eq!(
        buffer.pop(),
        Some(DtItem {
            dt_data: DtData::Dml { row_data: insert_row("public", "u", vec![("pk", ColValue::Long(1))]) },
            position: Position::Unset,
        })
    );
    assert_eq!(e.batch_extract(&mut buffer, &mut rows, &LogType::Miss, true), Ok(ExtractStep::Pushed));
    assert_eq!(
        buffer.pop(),
        Some(DtItem {
            dt_data: DtData::Dml { row_data: insert_row("public", "u", vec![("pk", ColValue::Long(2))]) },
            position: Position::Unset,
        })
    );
}

#[test]
fn cached_schema_is_found_until_a_schema_change() {
    let mut cache = PgMetaManager::new();
    assert_eq!(cache.get_tb_meta(&s("public"), &s("t")), None);
    cache.put(meta_t());
    let other = PgTbMeta { schema: s("other"), ..meta_t() };
    cache.put(other.clone());
    assert_eq!(cache.get_tb_meta(&s("public"), &s("t")), Some(&meta_t()));
    assert_eq!(cache.get_tb_meta(&s("public"), &s("u")), None);
    cache.observe(&DtData::Heartbeat);
    assert_eq!(cache.get_tb_meta(&s("public"), &s("t")), Some(&meta_t()));
    cache.invalidate(&s("public"));
    assert_eq!(cache.get_tb_meta(&s("public"), &s("t")), None);
    assert_eq!(cache.get_tb_meta(&s("other"), &s("t")), Some(&other));
    let mut replaced = meta_t();
    replaced.key_cols = vec![s("pk"), s("v")];
    cache.put(meta_t());
    cache.put(replaced.clone());
    assert_eq!(cache.get_tb_meta(&s("public"), &s("t")), Some(&replaced));
}

#[test]
fn row_after_a_schema_change_is_read_with_the_new_schema() {
    let e = extractor(no_routes());
    let mut cache = PgMetaManager::new();
    cache.put(meta_t());
    let log = vec![check_log(LogType::Miss, vec!["pk", "v", "c"], vec![Some("1"), Some("a"), Some("7")])];
    let stale = cache.get_tb_meta(&s("public"), &s("t")).cloned();
    assert_eq!(stale, Some(meta_t()));
    assert_eq!(e.build_check_row_datas(&log, &meta_t()), Err(Error::Schema));

    cache.observe(&DtData::Ddl {
        ddl_data: DdlData {
            schema: s("public"),
            query: s("ALTER TABLE t ADD c int"),
            meta: None,
            ddl_type: DdlType::AlterTable,
        },
    });
    assert_eq!(cache.get_tb_meta(&s("public"), &s("t")), None);

    let mut fresh = meta_t();
    fresh.cols.push(PgColMeta { name: s("c"), col_type: PgColType::Int4 });
    cache.put(fresh.clone());
    let meta = cache.get_tb_meta(&s("public"), &s("t")).cloned();
    assert_eq!(meta, Some(fresh.clone()));
    assert_eq!(
        e.build_check_row_datas(&log, &fresh),
        Ok(vec![insert_row(
            "public",
            "t",
            vec![("pk", ColValue::Long(1)), ("v", ColValue::String(s("a"))), ("c", ColValue::Long(7))]
        )])
    );
}
