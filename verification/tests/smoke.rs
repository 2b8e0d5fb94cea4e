#[test]
fn test_agent() {
    println!("this is a agent");
}
