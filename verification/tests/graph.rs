// The dependency graph: plain insertion, recursive admission, duplicate
// handling, and topological ordering.

use std::collections::HashMap;

use yarp::errors::YarpError;
use yarp::graph::Factory;
use yarp::graph::FileGraph;
use yarp::node::Node;
use yarp::pgwrap::pg_edge_count;
use yarp::strmap::StrMap;

struct MockFactory {
    pub path_by_deps: HashMap<String, Vec<String>>,
    pub skip_paths: Vec<String>,
}

impl MockFactory {
    pub fn new(path_by_deps: HashMap<String, Vec<String>>) -> Self {
        MockFactory { path_by_deps, skip_paths: Vec::new() }
    }
}

impl Factory for MockFactory {
    fn make(
        &self,
        path: &String,
        _known_libs: &StrMap,
        _extra_search_paths: &Vec<String>,
    ) -> Result<Option<Node>, YarpError> {
        if self.skip_paths.contains(path) {
            return Ok(None);
        }
        let deps = self.path_by_deps.get(path).cloned().unwrap_or_else(Vec::new);
        Ok(Some(Node::mock(path.clone(), deps)?))
    }

    fn make_with_symlinks(
        &self,
        path: &String,
        _symlinks: &Vec<String>,
        known_libs: &StrMap,
        extra_search_paths: &Vec<String>,
    ) -> Result<Option<Node>, YarpError> {
        self.make(path, known_libs, extra_search_paths)
    }

    fn make_py_executable(&self, path: &String) -> Result<Node, YarpError> {
        Ok(self.make(path, &StrMap::new(), &Vec::new())?.unwrap())
    }
}

fn get_graph(path_by_deps: HashMap<String, Vec<String>>) -> FileGraph<MockFactory> {
    FileGraph::new(MockFactory::new(path_by_deps))
}

#[test]
fn test_add_node_single() {
    let mut graph = get_graph(HashMap::new());
    let path = "python".to_string();
    let node = Node::mock(path, vec![]).unwrap();
    let idx = graph.add_tree(node, &StrMap::new(), false, &Vec::new()).unwrap();
    assert_eq!(graph.len(), 1);
    assert!(idx < graph.len());
}

#[test]
fn test_add_node_with_dependencies() {
    let p_lib_test = "libtest".to_string();
    let p_python = "python".to_string();
    let lib_test = Node::mock(p_lib_test.clone(), vec![]).unwrap();
    let py_node = Node::mock(p_python.clone(), vec![p_lib_test.clone()]).unwrap();

    let mut graph = get_graph(HashMap::from([(p_python, vec![p_lib_test])]));

    graph.add_tree(py_node.clone(), &StrMap::new(), false, &Vec::new()).unwrap();
    assert_eq!(graph.len(), 2);
    assert_eq!(pg_edge_count(&graph.inner), 1);
    assert!(graph.get_node_by_path(lib_test.path.as_str()).is_some());
    assert!(graph.get_node_by_path(py_node.path.as_str()).is_some());
}

#[test]
fn test_add_duplicate_node() {
    let mut graph = get_graph(HashMap::new());

    let p_python = "python".to_string();
    let node = Node::mock(p_python, vec![]).unwrap();

    graph.add_tree(node.clone(), &StrMap::new(), false, &Vec::new()).unwrap();
    assert_eq!(graph.len(), 1);

    graph.add_tree(node.clone(), &StrMap::new(), false, &Vec::new()).unwrap();
    assert_eq!(graph.len(), 1); // Should not add duplicate
}

#[test]
fn test_add_node_complex_dependencies() {
    println!("*************start complex test**********************");

    let dep2_path = "dep2.py".to_string();
    let dep2 = Node::mock(dep2_path.clone(), vec![]).unwrap();

    let dep1_path = "libdep1".to_string();
    let dep1 = Node::mock(dep1_path.clone(), vec![dep2_path.clone()]).unwrap();

    let dep3_path = "libdep3".to_string();
    let dep3 = Node::mock(dep3_path.clone(), vec![dep2_path.clone()]).unwrap();

    let main_path = "python".to_string();
    let main = Node::mock(main_path.clone(), vec![dep1_path.clone(), dep3_path.clone()]).unwrap();

    let path_by_deps = HashMap::from([
        (main_path, vec![dep1_path.clone(), dep3_path.clone()]),
        (dep1_path, vec![dep2_path.clone()]),
        (dep3_path, vec![dep2_path.clone()]),
        (dep2_path, vec![]),
    ]);
    let mut graph = get_graph(path_by_deps);

    let result = graph.add_tree(main.clone(), &StrMap::new(), false, &Vec::new());
    println!("*************end complex adding**********************");
    assert!(result.is_ok());
    assert_eq!(graph.len(), 4);
    assert_eq!(pg_edge_count(&graph.inner), 4);
    assert!(graph.get_node_by_path(main.path.as_str()).is_some());
    assert!(graph.get_node_by_path(dep1.path.as_str()).is_some());
    assert!(graph.get_node_by_path(dep2.path.as_str()).is_some());

    // Test topological sort
    let nodes: Vec<Node> = graph.toposort().unwrap();
    assert_eq!(nodes.len(), 4);

    assert_before(&nodes, &dep2, &dep1);
    assert_before(&nodes, &dep2, &dep3);
    assert_before(&nodes, &dep1, &main);
    assert_before(&nodes, &dep3, &main);
}

#[test]
fn mutually_dependent_libraries_are_admitted_and_reported_as_a_cycle() {
    let x = "libX.dylib".to_string();
    let y = "libY.dylib".to_string();
    let node_x = Node::mock(x.clone(), vec![y.clone()]).unwrap();

    let node_y = Node::mock(y.clone(), vec![x.clone()]).unwrap();
    let path_by_deps =
        HashMap::from([(x.clone(), vec![y.clone()]), (y.clone(), vec![x.clone()])]);
    let mut graph = get_graph(path_by_deps);

    // Both libraries are already in the graph when their references are
    // settled; admission tolerates a dependency pointing back at an
    // ancestor, and the cycle is reported loudly by the topological sort.
    graph.add_node(node_x.clone(), false);
    graph.add_node(node_y.clone(), false);
    graph.add_tree(node_x, &StrMap::new(), false, &Vec::new()).unwrap();
    graph.add_tree(node_y, &StrMap::new(), false, &Vec::new()).unwrap();
    assert!(graph.get_node_by_path("libX.dylib").is_some());
    assert!(graph.get_node_by_path("libY.dylib").is_some());
    assert!(graph.toposort().is_err());
}

#[test]
fn skipped_dependency_gets_no_node_and_no_edge() {
    // A dependency the factory refuses is dropped: admission succeeds, the
    // dependent is inserted, and the skipped path gains neither node nor
    // edge.
    let m = "m.so".to_string();
    let huge = "libhuge.so".to_string();
    let node = Node::mock(m.clone(), vec![huge.clone()]).unwrap();
    let mut factory = MockFactory::new(HashMap::new());
    factory.skip_paths.push(huge.clone());
    let mut graph = FileGraph::new(factory);
    let idx = graph.add_tree(node, &StrMap::new(), false, &Vec::new()).unwrap();
    assert!(idx < graph.len());
    assert_eq!(graph.len(), 1);
    assert_eq!(pg_edge_count(&graph.inner), 0);
    assert!(graph.get_node_by_path("m.so").is_some());
    assert!(graph.get_node_by_path("libhuge.so").is_none());
}

fn assert_before(vec: &Vec<Node>, first: &Node, second: &Node) {
    let first_pos = vec.iter().position(|x| *x == *first).expect("first element not found in vec");
    let second_pos =
        vec.iter().position(|x| *x == *second).expect("second element not found in vec");

    assert!(
        first_pos < second_pos,
        "Expected first element to come before second element in vec, first={} second={}",
        first.path,
        second.path
    );
}
