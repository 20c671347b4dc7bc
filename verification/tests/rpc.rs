use steward::gbx::rpc::{read_method_call, read_method_response, write_method_call, Call, Value};
use steward::gbx::xml::Fault;

#[test]
fn parse_callback_no_params() {
    let expected = Call { name: "TrackMania.PlayerConnect".to_string(), args: vec![] };
    let xml = r#"
            <?xml version="1.0" encoding="UTF-8"?>
            <methodCall>
               <methodName>TrackMania.PlayerConnect</methodName>
               <params>
               </params>
            </methodCall>
        "#;
    assert_eq!(expected, read_method_call(xml).unwrap())
}

#[test]
fn parse_callback_single_param() {
    let expected = Call {
        name: "TrackMania.PlayerConnect".to_string(),
        args: vec![Value::String("tim".to_string())],
    };
    let xml = r#"
            <?xml version="1.0" encoding="UTF-8"?>
            <methodCall>
               <methodName>TrackMania.PlayerConnect</methodName>
               <params>
                 <param>
                     <value>
                        <string>tim</string>
                     </value>
                  </param>
               </params>
            </methodCall>
        "#;
    assert_eq!(expected, read_method_call(xml).unwrap())
}

#[test]
fn parse_callback_multi_params() {
    let expected = Call {
        name: "TrackMania.PlayerConnect".to_string(),
        args: vec![Value::String("tim".to_string()), Value::Bool(false)],
    };
    let xml = r#"
        <?xml version="1.0" encoding="UTF-8"?>
            <methodCall>
               <methodName>TrackMania.PlayerConnect</methodName>
               <params>
                 <param>
                     <value>
                        <string>tim</string>
                     </value>
                  </param>
                  <param>
                     <value>
                        <boolean>0</boolean>
                     </value>
                  </param>
               </params>
            </methodCall>
        "#;
    assert_eq!(expected, read_method_call(xml).unwrap())
}

#[test]
fn parse_callback_empty_array() {
    let expected = Call {
        name: "TrackMania.PlayerConnect".to_string(),
        args: vec![Value::Array(vec![])],
    };
    let xml = r#"
            <?xml version="1.0" encoding="UTF-8"?>
            <methodCall>
               <methodName>TrackMania.PlayerConnect</methodName>
               <params><param><value><array><data>
               </data></array></value></param></params>
            </methodCall>
        "#;
    assert_eq!(expected, read_method_call(xml).unwrap())
}

#[test]
fn parse_callback_array() {
    let expected = Call {
        name: "TrackMania.PlayerConnect".to_string(),
        args: vec![Value::Array(vec![Value::Int(42), Value::Double("3.14".to_string())])],
    };
    let xml = r#"
            <?xml version="1.0" encoding="UTF-8"?>
            <methodCall>
               <methodName>TrackMania.PlayerConnect</methodName>
               <params><param><value><array><data>
                 <value>
                    <i4>42</i4>
                 </value>
                 <value>
                    <double>3.14</double>
                 </value>
               </data></array></value></param></params>
            </methodCall>
        "#;
    assert_eq!(expected, read_method_call(xml).unwrap())
}

#[test]
fn parse_callback_struct() {
    let expected = Call {
        name: "TrackMania.PlayerInfoChanged".to_string(),
        args: vec![Value::Struct(vec![("Login".to_string(), Value::String("tim".to_string()))])],
    };
    let xml = r#"
        <?xml version="1.0" encoding="UTF-8"?>
        <methodCall>
           <methodName>TrackMania.PlayerInfoChanged</methodName>
           <params>
              <param>
                 <value>
                    <struct>
                       <member>
                          <name>Login</name>
                          <value>
                             <string>tim</string>
                          </value>
                       </member>
                    </struct>
                 </value>
              </param>
           </params>
        </methodCall>
        "#;
    assert_eq!(expected, read_method_call(xml).unwrap())
}

#[test]
fn struct_members_are_sorted_and_unique() {
    let xml = r#"<?xml version="1.0"?><methodCall><methodName>m</methodName><params><param><value><struct>
        <member><name>b</name><value><int>1</int></value></member>
        <member><name>a</name><value><int>-2</int></value></member>
        <member><name>b</name><value><boolean>1</boolean></value></member>
        </struct></value></param></params></methodCall>"#;
    let call = read_method_call(xml).unwrap();
    assert_eq!(
        call.args,
        vec![Value::Struct(vec![
            ("a".to_string(), Value::Int(-2)),
            ("b".to_string(), Value::Bool(true)),
        ])]
    );
}

#[test]
fn malformed_calls_are_refused() {
    assert!(read_method_call("<methodCall></methodCall>").is_none());
    let bad_int = r#"<?xml version="1.0"?><methodCall><methodName>m</methodName><params><param><value><i4>x</i4></value></param></params></methodCall>"#;
    assert!(read_method_call(bad_int).is_none());
    let bad_bool = r#"<?xml version="1.0"?><methodCall><methodName>m</methodName><params><param><value><boolean>2</boolean></value></param></params></methodCall>"#;
    assert!(read_method_call(bad_bool).is_none());
}

#[test]
fn responses_and_faults() {
    let ok = r#"<?xml version="1.0"?><methodResponse><params><param><value><string>a &amp; b</string></value></param></params></methodResponse>"#;
    assert_eq!(read_method_response(ok), Some(Ok(Value::String("a & b".to_string()))));
    let fault = r#"<?xml version="1.0"?><methodResponse><fault><value><struct>
        <member><name>faultCode</name><value><int>-1000</int></value></member>
        <member><name>faultString</name><value><string>Login unknown.</string></value></member>
        </struct></value></fault></methodResponse>"#;
    assert_eq!(
        read_method_response(fault),
        Some(Err(Fault { code: -1000, msg: "Login unknown.".to_string() }))
    );
    let empty = r#"<?xml version="1.0"?><methodResponse><params></params></methodResponse>"#;
    assert_eq!(read_method_response(empty), None);
}

#[test]
fn writes_method_calls() {
    let call = Call {
        name: "Chat<Send>".to_string(),
        args: vec![
            Value::Int(-5),
            Value::Bool(true),
            Value::String("&lt;b&gt;".to_string()),
            Value::Array(vec![Value::Double("1.5".to_string())]),
            Value::Struct(vec![("k".to_string(), Value::Base64(b"hi".to_vec()))]),
        ],
    };
    let xml = write_method_call(&call);
    assert_eq!(
        xml,
        [
            r#"<?xml version="1.0" encoding="utf-8"?>"#,
            "<methodCall><methodName>Chat&lt;Send&gt;</methodName><params>",
            "<param><value><i4>-5</i4></value></param>",
            "<param><value><boolean>1</boolean></value></param>",
            "<param><value><string>&lt;b&gt;</string></value></param>",
            "<param><value><array><data><value><double>1.5</double></value></data></array></value></param>",
            "<param><value><struct><member><name>k</name><value><string>aGk=</string></value></member></struct></value></param>",
            "</params></methodCall>",
        ]
        .concat()
    );
    let back = read_method_call(&xml).unwrap();
    assert_eq!(back.name, "Chat<Send>");
    assert_eq!(back.args[0], Value::Int(-5));
}
