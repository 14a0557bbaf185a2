use rust_zero::rsctl::parse::parse;

#[test]
fn parse_sample_should_work() {
    let input = r#"
// 空内容
@server()

@doc "foo"

get /ping

@server (
  prefix: /v1
  group: Foo
)
service user {
  @doc "登录"
  @handler login
  post /user/login (LoginReq) returns (LoginResp)

  @handler getUserInfo
  get /user/info/:id (GetUserInfoReq) returns (GetUserInfoResp)
}
"#;

    let ast = parse(input).unwrap();
    assert!(!ast.items.is_empty());
}
