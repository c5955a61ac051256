use dormin::scene::Object;
use dormin::render_pass::RenderPasses;

#[test]
fn objects_are_grouped_by_shader_then_camera() {
    let mut p = RenderPasses::new();
    p.add_object("shader/simple.sh", 1, 10);
    p.add_object("shader/simple.sh", 1, 11);
    p.add_object("shader/simple.sh", 2, 12);
    p.add_object("shader/line.sh", 1, 13);
    assert_eq!(p.objects("shader/simple.sh", 1), vec![10, 11]);
    assert_eq!(p.objects("shader/simple.sh", 2), vec![12]);
    assert_eq!(p.objects("shader/line.sh", 1), vec![13]);
    assert!(p.objects("shader/line.sh", 2).is_empty());
    assert!(p.objects("shader/none.sh", 1).is_empty());
}

#[test]
fn clearing_keeps_the_passes_but_not_the_objects() {
    let mut p = RenderPasses::new();
    p.add_object("s", 1, 10);
    p.clear_objects();
    assert!(p.objects("s", 1).is_empty());
    p.add_object("s", 1, 20);
    assert_eq!(p.objects("s", 1), vec![20]);
}

fn object(name: &str, id: u128, children: Vec<Object>) -> Object {
    Object {
        name: String::from(name),
        id,
        mesh_render: None,
        children,
        parent: None,
        comp_string: Vec::new(),
        comp_lua: Vec::new(),
    }
}

#[test]
fn children_are_added_before_their_parent() {
    let tree = object(
        "root",
        1,
        vec![object("a", 2, vec![object("a1", 3, vec![])]), object("b", 4, vec![])],
    );
    let shaders = vec![
        (1, String::from("s")),
        (2, String::from("s")),
        (3, String::from("t")),
        (4, String::from("s")),
    ];
    let mut p = RenderPasses::new();
    p.prepare_passes_object(&tree, &shaders, 7);
    assert_eq!(p.objects("s", 7), vec![2, 4, 1]);
    assert_eq!(p.objects("t", 7), vec![3]);
    assert!(p.objects("s", 8).is_empty());
}

#[test]
fn objects_without_a_shader_are_not_drawn() {
    let list = vec![object("a", 1, vec![]), object("b", 2, vec![object("c", 3, vec![])])];
    let shaders = vec![(3, String::from("s"))];
    let mut p = RenderPasses::new();
    p.add_object("s", 7, 99);
    p.prepare_passes_list(&list, &shaders, 7);
    assert_eq!(p.objects("s", 7), vec![99, 3]);
}
