use std::collections::HashMap;
use std::rc::Rc;

use octopus::config::config::{DBRoute, DataRoute, MemRoute};
use octopus::dal::access::{insert_statement, update_statement, Access, DML};
use octopus::dal::request::{dispatch_check, missing_table};
use octopus::dal::adapter::modify;
use octopus::dal::lua::{next_eval_action, EvalAction, EvalReply, LuaScript};
use octopus::dal::mem::{
    after_cached_update, cache_rows_script, find_route, load_row_plan, match_pk, query_conditions,
    refresh_plan, remove_plan, rows_update_plan, update_request, update_start, FindRoute, UpdateStep,
};
use octopus::dal::support::{data_route_eq, plan_routes, route_changes, RouteAction};
use octopus::dal::sql::{conv_value, sql_literal_text, SqlValue};
use octopus::dal::table::{typed_row, Field, FieldValue, Table, TableSchema};
use octopus::db::value::{conv_string, Scalar};
use octopus::digest::sha1_hex_digest;
use octopus::discovery::register::split;
use octopus::error::Error;
use octopus::json::{cache_text, Json, JsonNumber};
use redis::ToRedisArgs;

/// The single encoded argument of a value, as the cache client writes it.
fn enc<T: ToRedisArgs>(v: T) -> Vec<u8> {
    let mut pieces = v.to_redis_args();
    assert_eq!(pieces.len(), 1);
    pieces.remove(0)
}

fn to_json(v: &serde_json::Value) -> Json {
    match v {
        serde_json::Value::Null => Json::Null,
        serde_json::Value::Bool(b) => Json::Bool(*b),
        serde_json::Value::Number(n) => {
            if let Some(u) = n.as_u64() {
                Json::Number(JsonNumber::PosInt(u))
            } else if let Some(i) = n.as_i64() {
                Json::Number(JsonNumber::NegInt(i))
            } else {
                Json::Number(JsonNumber::Float(format!("{}", n.as_f64().unwrap())))
            }
        }
        serde_json::Value::String(s) => Json::String(s.clone()),
        serde_json::Value::Array(a) => Json::Array(a.iter().map(to_json).collect()),
        serde_json::Value::Object(m) => {
            Json::Object(m.iter().map(|(k, v)| (k.clone(), to_json(v))).collect())
        }
    }
}

fn parse(text: &str) -> Json {
    let v: serde_json::Value = serde_json::from_str(text).unwrap();
    to_json(&v)
}

fn field(name: &str, tpe: &str) -> Field {
    Field { name: name.to_string(), tpe: tpe.to_string() }
}

fn test_table() -> Table {
    let db = "block".to_string();
    let model = "TbTestModel".to_string();
    let pks = vec!["RoleGuid".to_string(), "TwoKey".to_string()];
    let fields = vec![
        field("RoleGuid", "varchar"),
        field("TwoKey", "int"),
        field("CreateTime", "varchar"),
        field("CreateDatetime", "date"),
        field("CreateDate", "datetime"),
        field("CreateTimestamp", "int"),
    ];
    Table::default(db, model, pks, fields)
}

fn script_text(script: &mut LuaScript) -> String {
    script.compile().1
}

#[test]
fn test_modify() {
    let i = modify().unwrap();
    println!("{:?}", i);
    assert_eq!(i, Json::Number(JsonNumber::PosInt(12)));
}

#[test]
fn test_get_model_key() {
    let res = String::from("daqing:user_table:name,age:lucy,12");
    let db_name = String::from("daqing");
    let model_name = String::from("user_table");
    let pl = vec![String::from("name"), String::from("age")];
    let row = vec![
        (String::from("name"), String::from("lucy")),
        (String::from("age"), String::from("12")),
        (String::from("tel"), String::from("129099101")),
    ];
    let tbl = Table::default(db_name, model_name, pl, vec![]);
    assert_eq!(tbl.get_model_key(&row), res);
}

#[test]
fn model_key_of_row_without_a_primary_key() {
    let tbl = Table::default("d".to_string(), "m".to_string(), vec!["a".to_string(), "b".to_string()], vec![]);
    let row = vec![(String::from("b"), String::from("7"))];
    assert_eq!(tbl.get_model_key(&row), "d:m:a,b:,7");
}

#[test]
fn test_conv_string() {
    assert_eq!(conv_string(&Scalar::I32(12)), "12");
    assert_eq!(conv_string(&Scalar::Float(12.2f64.to_string())), "12.2");
    assert_eq!(conv_string(&Scalar::Bool(false)), "FALSE");
    assert_eq!(conv_string(&Scalar::Text("string".to_string())), "string");
    let s = String::from("hello");
    assert_eq!(conv_string(&Scalar::Text(s.clone())), s);
}

#[test]
fn conv_string_of_extreme_integers() {
    assert_eq!(conv_string(&Scalar::I64(i64::MIN)), "-9223372036854775808");
    assert_eq!(conv_string(&Scalar::U64(u64::MAX)), "18446744073709551615");
    assert_eq!(conv_string(&Scalar::I32(-7)), "-7");
    assert_eq!(conv_string(&Scalar::U32(0)), "0");
    assert_eq!(conv_string(&Scalar::Bool(true)), "TRUE");
}

#[test]
fn test_lua_script_sadd() {
    let mut script = LuaScript::new();
    script.sadd("name".to_string(), vec![enc("lucy"), enc("alias"), enc("bob")]);
    assert_eq!(script.keys_list(), &vec!["name".to_string()]);
    assert_eq!(script.argv_list(), &vec![b"lucy".to_vec(), b"alias".to_vec(), b"bob".to_vec()]);
    assert_eq!(
        script_text(&mut script),
        "local total = 0\nlocal r = 0\ntotal = total + redis.call('SADD', KEYS[1], ARGV[1], ARGV[2], ARGV[3])\n\nreturn total"
    );

    let mut script = LuaScript::new();
    script.sadd("name".to_string(), vec![enc("lucy"), enc("lion")]);
    assert_eq!(
        script_text(&mut script),
        "local total = 0\nlocal r = 0\ntotal = total + redis.call('SADD', KEYS[1], ARGV[1], ARGV[2])\n\nreturn total"
    );
}

#[test]
fn test_lua_script_hmset() {
    let mut script = LuaScript::new();

    let mut fv = HashMap::new();
    fv.insert("google".to_string(), "www.google.com");
    fv.insert("yahoo".to_string(), "www.yahoo.com");
    let fv: Vec<(String, Vec<u8>)> = fv.into_iter().map(|(f, v)| (f, enc(v))).collect();

    script.hmset("website".to_string(), fv.clone());
    let keys: Vec<String> = fv.iter().map(|(f, _)| f.clone()).collect();
    assert_eq!(script.keys_list(), &keys);
    assert_eq!(
        script_text(&mut script),
        "local total = 0\nlocal r = 0\nr = redis.call('HMSET', 'website', KEYS[1], ARGV[1], KEYS[2], ARGV[2])\n\nif r.ok == 'OK'\nthen\ntotal = total + 1\nend\n\nreturn total"
    );
}

#[test]
fn test_lua_script_hset() {
    let mut script = LuaScript::new();
    script.hset("website".to_string(), "name".to_string(), enc(12));
    assert_eq!(script.keys_list(), &vec!["website".to_string(), "name".to_string()]);
    assert_eq!(script.argv_list(), &vec![b"12".to_vec()]);
    assert_eq!(
        script_text(&mut script),
        "local total = 0\nlocal r = 0\nr = redis.call('HSET', KEYS[1], KEYS[2], ARGV[1])\nif r == 1\nthen\ntotal = total + 1\nend\n\nreturn total"
    );
}

#[test]
fn test_lua_script_del() {
    let mut script = LuaScript::new();
    script.del(vec!["k1".to_string(), "k2".to_string()]);
    assert_eq!(script.keys_list(), &vec!["k1".to_string(), "k2".to_string()]);
    assert_eq!(
        script_text(&mut script),
        "local total = 0\nlocal r = 0\ntotal = total + redis.call('DEL', KEYS[1], KEYS[2])\n\nreturn total"
    );
}

#[test]
fn test_lua_script_srem() {
    let mut script = LuaScript::new();
    script.srem("name".to_string(), vec!["lucy".to_string(), "alias".to_string(), "other".to_string()]);
    assert_eq!(script.argv_list(), &vec![b"lucy".to_vec(), b"alias".to_vec(), b"other".to_vec()]);
    assert_eq!(
        script_text(&mut script),
        "local total = 0\nlocal r = 0\nredis.call('SREM', KEYS[1], ARGV[1], ARGV[2], ARGV[3])\n\nreturn total"
    );
}

#[test]
fn test_lua_script_expire() {
    let mut script = LuaScript::new();
    script.expire("k1".to_string(), 30);
    assert_eq!(
        script_text(&mut script),
        "local total = 0\nlocal r = 0\nredis.call('EXPIRE', KEYS[1], 30)\n\nreturn total"
    );
}

#[test]
fn lua_indices_continue_across_commands() {
    let mut script = LuaScript::new();
    script.del(vec!["a".to_string()]);
    script.srem("s".to_string(), vec!["x".to_string(), "y".to_string()]);
    script.hset("h".to_string(), "f".to_string(), enc("v"));
    assert_eq!(
        script_text(&mut script),
        "local total = 0\nlocal r = 0\ntotal = total + redis.call('DEL', KEYS[1])\n\nredis.call('SREM', KEYS[2], ARGV[1], ARGV[2])\n\nr = redis.call('HSET', KEYS[3], KEYS[4], ARGV[3])\nif r == 1\nthen\ntotal = total + 1\nend\n\nreturn total"
    );
    assert_eq!(script.keys_list().len(), 4);
    assert_eq!(script.argv_list().len(), 3);
}

#[test]
fn test_lua_script_invoke() {
    let mut script = octopus::db::lua::LuaScript::new();
    script.append(
        r"
    return tonumber(ARGV[1]) + tonumber(ARGV[2]);
",
    );
    script.arg(1.to_redis_args());
    script.arg(2.to_redis_args());
    let (hash, code) = script.compile();
    assert_eq!(
        code,
        "local total = 0\nlocal r = 0\n\n    return tonumber(ARGV[1]) + tonumber(ARGV[2]);\n"
    );
    assert_eq!(hash.len(), 40);
    assert_eq!(script.argv_list(), &vec![b"1".to_vec(), b"2".to_vec()]);
}

#[test]
fn digest_of_known_text() {
    assert_eq!(sha1_hex_digest("abc"), "a9993e364706816aba3e25717850c26c9cd0d89d");
}

#[test]
fn compiled_script_carries_its_digest() {
    let mut script = LuaScript::new();
    let (hash, code) = script.compile();
    assert_eq!(code, "local total = 0\nlocal r = 0\nreturn total");
    assert_eq!(hash, sha1_hex_digest(&code));
}

#[test]
fn eval_reply_decides_next_step() {
    assert_eq!(next_eval_action(EvalReply::Value), EvalAction::Return);
    assert_eq!(next_eval_action(EvalReply::NoScript), EvalAction::LoadThenRetry);
    assert_eq!(next_eval_action(EvalReply::Failed), EvalAction::ReturnError);
}

#[test]
fn table_from_schema_rows() {
    let row = |c: &str, t: &str, k: &str| TableSchema {
        table_name: "user".to_string(),
        column_name: c.to_string(),
        data_type: t.to_string(),
        column_key: k.to_string(),
    };
    let tbl = Table::new(
        "block".to_string(),
        "user".to_string(),
        vec![row("name", "varchar", "PRI"), row("age", "int", ""), row("id", "int", "PRI")],
    );
    assert_eq!(tbl.get_pks(), &vec!["name".to_string(), "id".to_string()]);
    assert_eq!(tbl.get_fields().len(), 3);
    assert_eq!(tbl.get_fields()[1].name, "age");
    assert_eq!(tbl.get_fields()[1].tpe, "int");
    assert_eq!(tbl.get_db(), "block");
    assert_eq!(tbl.get_model(), "user");
}

#[test]
fn table_metadata_keys() {
    let tbl = Table::default("block".to_string(), "user".to_string(), vec![], vec![]);
    assert_eq!(tbl.get_db_set_key(), "block:metadata:set");
    assert_eq!(tbl.get_table_schema_key(), "block:user:metadata:scheme");
    assert_eq!(tbl.get_table_pk_key(), "block:user:metadata:pk");
    assert_eq!(tbl.get_table_set_key(), "block:user:metadata:set");
    assert_eq!(tbl.get_table_timer_key(), "block:user:metadata:timer");
    assert_eq!(tbl.get_table_counter_key(), "block:user:metadata:counter");
}

#[test]
fn metadata_keys_are_distinct() {
    let tbl = Table::default("d".to_string(), "".to_string(), vec![], vec![]);
    let keys = vec![
        tbl.get_db_set_key(),
        tbl.get_table_schema_key(),
        tbl.get_table_pk_key(),
        tbl.get_table_set_key(),
        tbl.get_table_timer_key(),
        tbl.get_table_counter_key(),
    ];
    for i in 0..keys.len() {
        for j in 0..keys.len() {
            if i != j {
                assert_ne!(keys[i], keys[j]);
            }
        }
    }
}

#[test]
fn other_table_modules_share_the_table() {
    let t = octopus::table::Table::default("a".to_string(), "b".to_string(), vec![], vec![]);
    assert_eq!(t.get_table_pk_key(), "a:b:metadata:pk");
    let t = octopus::db::table::Table::default("a".to_string(), "b".to_string(), vec![], vec![]);
    assert_eq!(t.get_table_counter_key(), "a:b:metadata:counter");
}

#[test]
fn schema_registration_script() {
    let tbl = Table::default(
        "block".to_string(),
        "user".to_string(),
        vec!["name".to_string()],
        vec![field("name", "vchar"), field("age", "int")],
    );
    let mut script = tbl.schema_script();
    assert_eq!(
        script.keys_list(),
        &vec!["block:metadata:set".to_string(), "name".to_string(), "age".to_string()]
    );
    assert_eq!(script.argv_list(), &vec![b"user".to_vec(), b"vchar".to_vec(), b"int".to_vec()]);
    assert_eq!(
        script_text(&mut script),
        "local total = 0\nlocal r = 0\ntotal = total + redis.call('SADD', KEYS[1], ARGV[1])\n\nr = redis.call('HMSET', 'block:user:metadata:scheme', KEYS[2], ARGV[2], KEYS[3], ARGV[3])\n\nif r.ok == 'OK'\nthen\ntotal = total + 1\nend\n\nreturn total"
    );
}

#[test]
fn field_values_by_type() {
    assert_eq!(field("a", "varchar").get_value("x y").unwrap(), FieldValue::Text("x y".to_string()));
    assert_eq!(field("a", "int").get_value("-42").unwrap(), FieldValue::Integer(-42));
    assert_eq!(field("a", "bigint").get_value("+9223372036854775807").unwrap(), FieldValue::Integer(i64::MAX));
    assert_eq!(field("a", "tinyint").get_value("-128").unwrap(), FieldValue::Integer(-128));
    assert_eq!(field("a", "smallint").get_value("32767").unwrap(), FieldValue::Integer(32767));
    assert_eq!(field("a", "mediumint").get_value("-2147483648").unwrap(), FieldValue::Integer(-2147483648));
    assert_eq!(
        field("a", "double").get_value("1.5").unwrap(),
        FieldValue::Real { text: "1.5".to_string(), single: false }
    );
    assert_eq!(
        field("a", "float").get_value("2").unwrap(),
        FieldValue::Real { text: "2".to_string(), single: true }
    );
}

#[test]
fn field_value_errors() {
    assert_eq!(
        field("age", "tinyint").get_value("300").unwrap_err(),
        Error::CommonError { info: "field: age [300] convert to tinyint failed".to_string() }
    );
    assert_eq!(
        field("age", "int").get_value("12a").unwrap_err(),
        Error::CommonError { info: "field: age [12a] convert to int failed".to_string() }
    );
    assert_eq!(
        field("age", "int").get_value("-").unwrap_err(),
        Error::CommonError { info: "field: age [-] convert to int failed".to_string() }
    );
    assert_eq!(
        field("age", "bigint").get_value("9223372036854775808").unwrap_err(),
        Error::CommonError { info: "field: age [9223372036854775808] convert to bigint failed".to_string() }
    );
    assert_eq!(
        field("geo", "point").get_value("1").unwrap_err(),
        Error::CommonError { info: "field: geo [1] convert to undefined point error".to_string() }
    );
}

#[test]
fn access_test_access_insert() {
    let data = r##"{"values":{"RoleGuid":"0000009b790008004b65fb","TwoKey":2,"CreateTime":"22:00:00","CreateDatetime":"2019-02-08","CreateDate":"2019-02-06 01:24:38","CreateTimestamp":1480580000}}"##;
    let mut access = Access::new(Rc::new(test_table()), DML::Insert, parse(data));
    access.build().unwrap();
    assert_eq!(
        access.sql(),
        "INSERT INTO `TbTestModel` (`CreateDate`,`CreateDatetime`,`CreateTime`,`CreateTimestamp`,`RoleGuid`,`TwoKey`) VALUES(:createdate, :createdatetime, :createtime, :createtimestamp, :roleguid, :twokey)"
    );
    let params = access.params();
    assert_eq!(params.len(), 6);
    assert_eq!(params[0], ("createdate".to_string(), SqlValue::Text("2019-02-06 01:24:38".to_string())));
    assert_eq!(params[3], ("createtimestamp".to_string(), SqlValue::Int(1480580000)));
    assert_eq!(params[5], ("twokey".to_string(), SqlValue::Int(2)));
}

#[test]
fn access_test_access_update() {
    let data = r##"{"conditions":{"TwoKey__gte":1,"TwoKey__lte":9, "TwoKey__in":[21,31],"operator":"OR", "RoleGuid__like":"%9b%"},"values":{"CreateDate":"2017-02-23","CreateTimestamp":123}}"##;
    let mut access = Access::new(Rc::new(test_table()), DML::Update, parse(data));
    access.build().unwrap();
    assert_eq!(
        access.sql(),
        "UPDATE TbTestModel SET CreateDate = :createdate, CreateTimestamp = :createtimestamp WHERE RoleGuid LIKE :condition0 OR TwoKey >= :condition1 OR TwoKey in (21,31) OR TwoKey <= :condition2"
    );
    assert_eq!(
        access.params(),
        &vec![
            ("condition0".to_string(), SqlValue::Text("%9b%".to_string())),
            ("condition1".to_string(), SqlValue::Int(1)),
            ("condition2".to_string(), SqlValue::Int(9)),
            ("createdate".to_string(), SqlValue::Text("2017-02-23".to_string())),
            ("createtimestamp".to_string(), SqlValue::Int(123)),
        ]
    );
}

#[test]
fn update_without_conditions_or_operator() {
    let data = r##"{"conditions":{},"values":{"a":1.5,"b":null,"c":"it's"}}"##;
    let mut access = Access::new(Rc::new(test_table()), DML::Update, parse(data));
    access.build().unwrap();
    assert_eq!(access.sql(), "UPDATE TbTestModel SET a = :a, c = :c");
    assert_eq!(access.params()[0], ("a".to_string(), SqlValue::Double("1.5".to_string())));

    let data = r##"{"conditions":{"x__is":0,"y__isnot":0,"z__in":["it's",null],"w__in":[true]},"values":{}}"##;
    let mut access = Access::new(Rc::new(test_table()), DML::Update, parse(data));
    access.build().unwrap();
    assert_eq!(access.sql(), "UPDATE TbTestModel SET  WHERE w__inx IS NULLy IS NOT NULLz in ('it''s')");
    assert!(access.params().is_empty());
}

#[test]
fn update_errors() {
    let build = |text: &str| {
        let mut access = Access::new(Rc::new(test_table()), DML::Update, parse(text));
        access.build().unwrap_err()
    };
    let common = |s: &str| Error::CommonError { info: s.to_string() };
    assert_eq!(build(r#"{"conditions":{}}"#), common("invalid json format"));
    assert_eq!(build(r#"{"values":[],"conditions":{}}"#), common("invalid json format at token 'values'"));
    assert_eq!(build(r#"{"values":{}}"#), common("invalid json format"));
    assert_eq!(build(r#"{"values":{},"conditions":{"operator":1}}"#), common("invalid format at token operator:1"));
    assert_eq!(build(r#"{"values":{},"conditions":{"operator":-2}}"#), common("invalid format at token operator:-2"));
    assert_eq!(build(r#"{"values":{},"conditions":{"operator":null}}"#), common("invalid format at token operator:null"));
    assert_eq!(build(r#"{"values":{},"conditions":{"operator":true}}"#), common("invalid format at token operator:true"));
    assert_eq!(build(r#"{"values":{},"conditions":{"operator":1.5}}"#), Error::OperatorNotText);
    assert_eq!(build(r#"{"values":{},"conditions":{"operator":["AND"]}}"#), Error::OperatorNotText);
    assert_eq!(build(r#"{"values":{},"conditions":{"operator":"XOR"}}"#), common("invalid operator:XOR"));
    assert_eq!(build(r#"{"values":{},"conditions":{"a__eq":null}}"#), common("invalid json format"));
    assert_eq!(build(r#"{"values":{},"conditions":{"a__in":1}}"#), common("invalid format at a__in, it`s must json array"));
    assert_eq!(build(r#"{"values":{},"conditions":{"a__near":1}}"#), common("Unsupported operator a__near"));
    assert_eq!(build(r#"{"values":{},"conditions":{"a__":1}}"#), common("Unsupported operator a__"));
}

#[test]
fn insert_of_a_body_without_values() {
    let mut access = Access::new(Rc::new(test_table()), DML::Insert, parse("[1]"));
    assert_eq!(access.build().unwrap_err(), Error::CommonError { info: "invalid json format".to_string() });
}

#[test]
fn conversions_and_literals() {
    assert_eq!(conv_value(&Json::Number(JsonNumber::PosInt(u64::MAX))), Some(SqlValue::UInt(u64::MAX)));
    assert_eq!(conv_value(&Json::Number(JsonNumber::NegInt(-3))), Some(SqlValue::Int(-3)));
    assert_eq!(conv_value(&Json::Bool(true)), None);
    assert_eq!(sql_literal_text(&SqlValue::Text("a'b".to_string())), "'a''b'");
    assert_eq!(sql_literal_text(&SqlValue::Int(-5)), "-5");
    assert_eq!(sql_literal_text(&SqlValue::UInt(u64::MAX)), "18446744073709551615");
    assert_eq!(sql_literal_text(&SqlValue::Double("0.25".to_string())), "0.25");
}

#[test]
fn primary_key_match() {
    let tbl = test_table();
    let cond = parse(r#"{"RoleGuid__eq":"g","TwoKey__eq":3,"operator":"AND"}"#);
    let entries = match &cond {
        Json::Object(e) => e,
        _ => unreachable!(),
    };
    let (found, all) = match_pk(&tbl, entries);
    assert!(all);
    assert_eq!(found.len(), 2);
    assert_eq!(found[0].0, "RoleGuid");
    assert_eq!(found[1].1, &Json::Number(JsonNumber::PosInt(3)));

    let cond = parse(r#"{"RoleGuid__eq":"g","TwoKey__gte":3}"#);
    let entries = match &cond {
        Json::Object(e) => e,
        _ => unreachable!(),
    };
    let (found, all) = match_pk(&tbl, entries);
    assert!(!all);
    assert_eq!(found.len(), 1);
}

#[test]
fn rows_cache_script() {
    let rows = vec![
        ("k1".to_string(), vec![("a".to_string(), enc("1"))]),
        ("k2".to_string(), vec![("b".to_string(), enc("2")), ("c".to_string(), enc("3"))]),
    ];
    let mut script = cache_rows_script(rows, 3600);
    assert_eq!(
        script.keys_list(),
        &vec!["a".to_string(), "k1".to_string(), "b".to_string(), "c".to_string(), "k2".to_string()]
    );
    assert_eq!(
        script_text(&mut script),
        "local total = 0\nlocal r = 0\nr = redis.call('HMSET', 'k1', KEYS[1], ARGV[1])\n\nif r.ok == 'OK'\nthen\ntotal = total + 1\nend\n\nredis.call('EXPIRE', KEYS[2], 3600)\n\nr = redis.call('HMSET', 'k2', KEYS[3], ARGV[2], KEYS[4], ARGV[3])\n\nif r.ok == 'OK'\nthen\ntotal = total + 1\nend\n\nredis.call('EXPIRE', KEYS[5], 3600)\n\nreturn total"
    );
}

#[test]
fn split_node_paths() {
    assert_eq!(split("node".to_string()), ("/".to_string(), "node".to_string()));
    assert_eq!(split("/a/b/c".to_string()), ("/a/b".to_string(), "c".to_string()));
    assert_eq!(split("//a//b/".to_string()), ("/a".to_string(), "b".to_string()));
    assert_eq!(split("/top".to_string()), ("/".to_string(), "top".to_string()));
}

fn data_route(name: &str, with_cache: bool) -> DataRoute {
    DataRoute {
        db: DBRoute {
            engine: "mysql".to_string(),
            user: "snlan".to_string(),
            passwd: "snlan".to_string(),
            address: "www.snlan.top".to_string(),
            port: 3306,
            name: name.to_string(),
        },
        mem: if with_cache {
            Some(MemRoute {
                host: "www.snlan.top".to_string(),
                port: 6379,
                db: 0,
                expire: 3600,
                pass: "snlan".to_string(),
            })
        } else {
            None
        },
    }
}

#[test]
fn route_plan_reaches_configuration() {
    let current = vec![
        ("a".to_string(), data_route("block", true)),
        ("b".to_string(), data_route("block", false)),
        ("c".to_string(), data_route("other", false)),
    ];
    let wanted = vec![
        ("b".to_string(), data_route("block", true)),
        ("c".to_string(), data_route("other", false)),
        ("d".to_string(), data_route("new", false)),
    ];
    let plan = plan_routes(&current, &wanted);
    assert_eq!(
        plan,
        vec![
            RouteAction::Update("b".to_string()),
            RouteAction::Create("d".to_string()),
            RouteAction::Remove("a".to_string()),
        ]
    );
    let mut open: Vec<String> = current.iter().map(|(k, _)| k.clone()).collect();
    for step in plan {
        match step {
            RouteAction::Create(a) => open.push(a),
            RouteAction::Remove(a) => open.retain(|x| *x != a),
            RouteAction::Update(_) => {}
        }
    }
    open.sort();
    assert_eq!(open, vec!["b".to_string(), "c".to_string(), "d".to_string()]);
}

#[test]
fn route_changes_name_the_reopened_parts() {
    let a = data_route("block", true);
    assert!(data_route_eq(&a, &data_route("block", true)));
    assert_eq!(route_changes(&a, &data_route("block", false)), (false, true));
    assert_eq!(route_changes(&a, &data_route("other", true)), (true, false));
    assert_eq!(route_changes(&a, &data_route("other", false)), (true, true));
    assert!(!data_route_eq(&a, &data_route("other", true)));
}

fn entries(j: &Json) -> &Vec<(String, Json)> {
    match j {
        Json::Object(e) => e,
        _ => panic!("not an object"),
    }
}

fn texts(pairs: &[(&str, &str)]) -> Vec<(String, String)> {
    pairs.iter().map(|(k, v)| (k.to_string(), v.to_string())).collect()
}

#[test]
fn refused_build_keeps_the_statement() {
    let data = r#"{"values":{"a":1},"conditions":{"a__eq":1,"operator":"XOR"}}"#;
    let mut access = Access::new(Rc::new(test_table()), DML::Update, parse(data));
    assert!(access.build().is_err());
    assert_eq!(access.sql(), "");
    assert!(access.params().is_empty());
}

#[test]
fn model_key_ignores_other_columns() {
    let tbl = test_table();
    let a = texts(&[("RoleGuid", "g"), ("TwoKey", "3"), ("CreateTime", "x")]);
    let b = texts(&[("CreateDate", "d"), ("TwoKey", "3"), ("RoleGuid", "g")]);
    assert_eq!(tbl.get_model_key(&a), "block:TbTestModel:RoleGuid,TwoKey:g,3");
    assert_eq!(tbl.get_model_key(&a), tbl.get_model_key(&b));
    let c = texts(&[("RoleGuid", "g")]);
    assert_eq!(tbl.get_model_key(&c), "block:TbTestModel:RoleGuid,TwoKey:g,");
    assert_eq!(tbl.values_key(&vec!["g".to_string(), "3".to_string()]), "block:TbTestModel:RoleGuid,TwoKey:g,3");
}

#[test]
fn cache_texts_of_json_values() {
    assert_eq!(cache_text(&Json::String("s".to_string())), Some("s".to_string()));
    assert_eq!(cache_text(&Json::Number(JsonNumber::PosInt(12))), Some("12".to_string()));
    assert_eq!(cache_text(&Json::Number(JsonNumber::NegInt(-7))), Some("-7".to_string()));
    assert_eq!(cache_text(&Json::Number(JsonNumber::Float("2.5".to_string()))), Some("2.5".to_string()));
    assert_eq!(cache_text(&Json::Null), Some("null".to_string()));
    assert_eq!(cache_text(&Json::Bool(false)), Some("false".to_string()));
    assert_eq!(cache_text(&parse("[1]")), None);
}

#[test]
fn update_request_parts_and_errors() {
    let common = |s: &str| Error::CommonError { info: s.to_string() };
    let body = parse(r#"{"conditions":{"a__eq":1},"values":{"b":2}}"#);
    let (c, v) = update_request(&body).unwrap();
    assert_eq!(c[0].0, "a__eq");
    assert_eq!(v[0].0, "b");
    assert_eq!(update_request(&parse(r#"{"values":{}}"#)).unwrap_err(), common("invalid json format"));
    assert_eq!(
        update_request(&parse(r#"{"conditions":1,"values":{}}"#)).unwrap_err(),
        common("invalid json format at token conditions")
    );
    assert_eq!(update_request(&parse(r#"{"conditions":{}}"#)).unwrap_err(), common("invalid json format"));
    assert_eq!(
        update_request(&parse(r#"{"conditions":{},"values":[]}"#)).unwrap_err(),
        common("invalid json format at token values")
    );
    assert_eq!(query_conditions(&parse("[]")).unwrap_err(), common("invalid json format"));
    assert_eq!(query_conditions(&parse(r#"{"a":1}"#)).unwrap().len(), 1);
}

#[test]
fn update_starts_at_the_cached_row() {
    let tbl = test_table();
    let whole = parse(r#"{"RoleGuid__eq":"g","TwoKey__eq":3,"operator":"AND"}"#);
    match update_start(&tbl, entries(&whole)) {
        UpdateStep::CheckCached(mid) => assert_eq!(mid, "block:TbTestModel:RoleGuid,TwoKey:g,3"),
        _ => panic!("expected the cached row"),
    }
    let part = parse(r#"{"RoleGuid__eq":"g","TwoKey__gt":3}"#);
    assert!(matches!(update_start(&tbl, entries(&part)), UpdateStep::SelectRows));
    let composite = parse(r#"{"RoleGuid__eq":["g"],"TwoKey__eq":3}"#);
    match update_start(&tbl, entries(&composite)) {
        UpdateStep::CheckCachedByValues(vals) => {
            assert_eq!(vals.len(), 2);
            assert_eq!(vals[0].0, "RoleGuid");
            assert_eq!(vals[1].1, &Json::Number(JsonNumber::PosInt(3)));
        }
        _ => panic!("expected the values"),
    }
}

#[test]
fn queries_go_to_the_cache_only_by_whole_key() {
    let tbl = test_table();
    let whole = parse(r#"{"RoleGuid__eq":"g","TwoKey__eq":3}"#);
    match find_route(&tbl, entries(&whole), true) {
        FindRoute::FromCache(mid) => assert_eq!(mid, "block:TbTestModel:RoleGuid,TwoKey:g,3"),
        _ => panic!("expected the cache"),
    }
    assert!(matches!(find_route(&tbl, entries(&whole), false), FindRoute::FromDb));
    let part = parse(r#"{"TwoKey__eq":3}"#);
    assert!(matches!(find_route(&tbl, entries(&part), true), FindRoute::FromDb));
}

#[test]
fn removal_drops_the_cached_rows() {
    let tbl = test_table();
    assert!(remove_plan(&tbl, &vec![]).is_none());
    let rows = vec![texts(&[("RoleGuid", "g"), ("TwoKey", "3")])];
    let mut script = remove_plan(&tbl, &rows).unwrap();
    assert_eq!(
        script.keys_list(),
        &vec!["block:TbTestModel:RoleGuid,TwoKey:g,3".to_string(), "block:TbTestModel:metadata:set".to_string()]
    );
    assert_eq!(script.argv_list(), &vec![b"block:TbTestModel:RoleGuid,TwoKey:g,3".to_vec()]);
    assert_eq!(
        script_text(&mut script),
        "local total = 0\nlocal r = 0\ntotal = total + redis.call('DEL', KEYS[1])\n\nredis.call('SREM', KEYS[2], ARGV[1])\n\nreturn total"
    );
}

#[test]
fn failed_database_update_drops_the_loaded_rows() {
    let tbl = test_table();
    let mids = vec!["k1".to_string(), "k2".to_string()];
    let (n, drop) = after_cached_update(&tbl, mids.clone(), true);
    assert_eq!(n, 2);
    assert!(drop.is_none());
    let (n, drop) = after_cached_update(&tbl, mids, false);
    assert_eq!(n, 2);
    assert_eq!(
        drop.unwrap().keys_list(),
        &vec!["k1".to_string(), "k2".to_string(), "block:TbTestModel:metadata:set".to_string()]
    );
}

#[test]
fn update_plan_applies_the_values_and_resets_expiry() {
    let tbl = test_table();
    let rows = vec![texts(&[("RoleGuid", "g"), ("TwoKey", "3"), ("CreateTime", "x")])];
    let values = texts(&[("CreateTime", "y"), ("Extra", "z")]);
    let (mids, mut script) = rows_update_plan(&tbl, rows, values, 3600);
    assert_eq!(mids, vec!["block:TbTestModel:RoleGuid,TwoKey:g,3".to_string()]);
    assert_eq!(
        script.keys_list(),
        &vec![
            "RoleGuid".to_string(),
            "TwoKey".to_string(),
            "CreateTime".to_string(),
            "Extra".to_string(),
            "block:TbTestModel:RoleGuid,TwoKey:g,3".to_string(),
        ]
    );
    assert_eq!(script.argv_list(), &vec![b"g".to_vec(), b"3".to_vec(), b"y".to_vec(), b"z".to_vec()]);
    assert_eq!(
        script_text(&mut script),
        "local total = 0\nlocal r = 0\nr = redis.call('HMSET', 'block:TbTestModel:RoleGuid,TwoKey:g,3', KEYS[1], ARGV[1], KEYS[2], ARGV[2], KEYS[3], ARGV[3], KEYS[4], ARGV[4])\n\nif r.ok == 'OK'\nthen\ntotal = total + 1\nend\n\nredis.call('EXPIRE', KEYS[5], 3600)\n\nreturn total"
    );
}

#[test]
fn loading_and_refreshing_a_row() {
    assert!(load_row_plan("m".to_string(), vec![], 60).is_none());
    let rows = vec![vec![("a".to_string(), b"1".to_vec())], vec![("b".to_string(), b"2".to_vec())]];
    let script = load_row_plan("m".to_string(), rows, 60).unwrap();
    assert_eq!(script.keys_list(), &vec!["a".to_string(), "m".to_string()]);
    assert_eq!(script.argv_list(), &vec![b"1".to_vec()]);
    let script = refresh_plan("m".to_string(), texts(&[("c", "v")]), 60);
    assert_eq!(script.keys_list(), &vec!["c".to_string(), "m".to_string()]);
    assert_eq!(script.argv_list(), &vec![b"v".to_vec()]);
}

#[test]
fn cached_rows_are_typed_by_their_fields() {
    let all = vec![field("a", "varchar"), field("b", "int"), field("c", "float")];
    let row = vec!["x".to_string(), "12".to_string(), "1.5".to_string()];
    let typed = typed_row(&vec![], &all, &row).unwrap();
    assert_eq!(
        typed,
        vec![
            ("a".to_string(), FieldValue::Text("x".to_string())),
            ("b".to_string(), FieldValue::Integer(12)),
            ("c".to_string(), FieldValue::Real { text: "1.5".to_string(), single: true }),
        ]
    );
    let requested = vec![field("b", "tinyint")];
    let (prefix, e) = typed_row(&requested, &all, &vec!["300".to_string()]).unwrap_err();
    assert!(prefix.is_empty());
    assert_eq!(e, Error::CommonError { info: "field: b [300] convert to tinyint failed".to_string() });
}

#[test]
fn select_and_delete_take_the_body_as_conditions() {
    let build = |dml: DML, text: &str| {
        let mut access = Access::new(Rc::new(test_table()), dml, parse(text));
        access.build().map(|_| (access.sql().clone(), access.params().clone()))
    };
    let (sql, params) = build(DML::Select, r#"{"RoleGuid__eq":"g","TwoKey__gt":3,"operator":"AND"}"#).unwrap();
    assert_eq!(sql, "SELECT * FROM TbTestModel WHERE RoleGuid = :condition0 AND TwoKey > :condition1");
    assert_eq!(
        params,
        vec![("condition0".to_string(), SqlValue::Text("g".to_string())), ("condition1".to_string(), SqlValue::Int(3))]
    );
    let (sql, params) = build(DML::Delete, r#"{"TwoKey__in":[1,2],"operator":"OR","a__isnot":0}"#).unwrap();
    assert_eq!(sql, "DELETE FROM TbTestModel WHERE TwoKey in (1,2) OR a IS NOT NULL");
    assert!(params.is_empty());
    let (sql, _) = build(DML::Select, "{}").unwrap();
    assert_eq!(sql, "SELECT * FROM TbTestModel");
    assert_eq!(
        build(DML::Delete, "[1]").unwrap_err(),
        Error::CommonError { info: "invalid json format".to_string() }
    );
    assert_eq!(
        build(DML::Select, r#"{"operator":"NOT"}"#).unwrap_err(),
        Error::CommonError { info: "invalid operator:NOT".to_string() }
    );
}

#[test]
fn statements_with_given_lowercase_names() {
    let body = parse(r#"{"values":{"A":1,"B":null,"C":"x"},"conditions":{"A__eq":2}}"#);
    let low = vec!["first".to_string(), "second".to_string()];
    let (sql, params) = insert_statement("m", &body, &low).unwrap();
    assert_eq!(sql, "INSERT INTO `m` (`A`,`C`) VALUES(:first, :second)");
    assert_eq!(
        params,
        vec![("first".to_string(), SqlValue::Int(1)), ("second".to_string(), SqlValue::Text("x".to_string()))]
    );
    let (sql, params) = update_statement("m", &body, &low).unwrap();
    assert_eq!(sql, "UPDATE m SET A = :first, C = :second WHERE A = :condition0");
    assert_eq!(params[0], ("condition0".to_string(), SqlValue::Int(2)));
    assert_eq!(params[2], ("second".to_string(), SqlValue::Text("x".to_string())));
}

#[test]
fn requests_are_checked_before_dispatch() {
    let known = vec!["block".to_string(), "other".to_string()];
    assert_eq!(dispatch_check(None, &known), Err("uri is null".to_string()));
    assert_eq!(dispatch_check(Some("nope"), &known), Err("not fond db:nope".to_string()));
    assert_eq!(dispatch_check(Some("other"), &known), Ok(()));
    assert_eq!(missing_table("user"), Error::CommonError { info: "table user not found".to_string() });
}
