use cql_parser::cql::parse;

const QUERIES: &str = "// statements that must parse
select * from test
select field1,field2 from test
select count(*) from users where k = ?
SELECT a, b FROM t WHERE x = ? AND y > 3 ORDER BY y DESC LIMIT 10;
select * from events WHERE event_type = 'myEvent' AND time > '2011-02-03' AND time <= '2012-01-01'
select * from tab where id = de305d54-75b4-431b-adb2-eb6b9e546014
select * from tab where k in [1, 2, 3]
insert into users (name, age) values (?, ?) if not exists
insert into users (name, age) values ('bob', 42) using ttl 60 and timestamp 1000
insert into tags (id, tags) values (:id, {'a', 'b'})
update men set bal = bal + 1 where k = ?
update men using ttl 60 set bal = ?, name = 'x' where k = ? if exists
update users set favs = favs + { 'movie' : 'Cassablanca' } where k = ?
update users set scores = [ 12 ] + scores where k = ?
update users set favs[0] = 'bacon' where k = ? if bal = ? and x < 2
delete from blah where x = ?
delete a, b from blah where x = ? using timestamp 60
";

#[test]
fn test_legal_queries() {
    let queries = QUERIES.split('\n');
    let mut failed = 0;
    let mut passed = 0;
    let mut failed_queries = Vec::new();

    for query in queries {
        // skip blank lines and lines that are a comment
        if query.trim() == "" {
            continue;
        }
        if query.starts_with("//") {
            continue;
        }
        let parsed = parse(query);
        match parsed {
            Ok(_stmt) => {
                passed += 1;
            }
            Err(_x) => {
                failed += 1;
                failed_queries.push(query);
            }
        };
    }
    if failed > 0 {
        for query in failed_queries {
            println!("{}", query);
        }
        panic!("Failed tests: {} of {}", failed, passed + failed);
    }
}
