use deagle::typescript_parser::{parse, parse_with_edges};
use deagle::{EdgeKind, Language, NodeKind};
const SAMPLE_TS: &str = r#"
import { Router } from 'express';
import type { Request, Response } from 'express';

const MAX_SIZE = 1024;

interface Config {
    name: string;
    values: Record<string, string>;
}

type Status = 'active' | 'inactive';

enum Direction {
    Up,
    Down,
    Left,
    Right,
}

class Server {
    private config: Config;

    constructor(config: Config) {
        this.config = config;
    }

    start(): void {
        console.log('starting');
    }

    getConfig(): Config {
        return this.config;
    }
}

function createServer(name: string): Server {
    return new Server({ name, values: {} });
}

const handler = (req: Request, res: Response) => {
    res.send('ok');
};

export function main() {
    const server = createServer('test');
    server.start();
}
"#;

#[test]
fn test_parse_ts_finds_all_definitions() {
    let path = "app.ts";
    let nodes = parse(path, SAMPLE_TS).unwrap();
    let kinds: Vec<_> = nodes.iter().map(|n| n.kind).collect();
    assert!(kinds.contains(&NodeKind::Import), "should find import");
    assert!(kinds.contains(&NodeKind::Constant), "should find constant");
    assert!(kinds.contains(&NodeKind::Interface), "should find interface");
    assert!(kinds.contains(&NodeKind::TypeAlias), "should find type alias");
    assert!(kinds.contains(&NodeKind::Enum), "should find enum");
    assert!(kinds.contains(&NodeKind::Class), "should find class");
    assert!(kinds.contains(&NodeKind::Function), "should find function");
}

#[test]
fn test_parse_ts_class_methods() {
    let path = "app.ts";
    let nodes = parse(path, SAMPLE_TS).unwrap();
    let methods: Vec<_> = nodes.iter().filter(|n| n.kind == NodeKind::Method).collect();
    assert!(methods.iter().any(|m| m.name == "start"));
    assert!(methods.iter().any(|m| m.name == "getConfig"));
    assert!(methods.iter().any(|m| m.name == "constructor"));
}

#[test]
fn test_parse_ts_arrow_function() {
    let path = "app.ts";
    let nodes = parse(path, SAMPLE_TS).unwrap();
    let fns: Vec<_> = nodes.iter().filter(|n| n.kind == NodeKind::Function).collect();
    assert!(fns.iter().any(|f| f.name == "handler"), "arrow function should be captured");
    assert!(fns.iter().any(|f| f.name == "createServer"));
    assert!(fns.iter().any(|f| f.name == "main"));
}

#[test]
fn test_parse_ts_interface() {
    let path = "app.ts";
    let nodes = parse(path, SAMPLE_TS).unwrap();
    let ifaces: Vec<_> = nodes.iter().filter(|n| n.kind == NodeKind::Interface).collect();
    assert_eq!(ifaces.len(), 1);
    assert_eq!(ifaces[0].name, "Config");
}

#[test]
fn test_parse_ts_enum() {
    let path = "app.ts";
    let nodes = parse(path, SAMPLE_TS).unwrap();
    let enums: Vec<_> = nodes.iter().filter(|n| n.kind == NodeKind::Enum).collect();
    assert_eq!(enums.len(), 1);
    assert_eq!(enums[0].name, "Direction");
}

#[test]
fn test_parse_ts_edges() {
    let path = "app.ts";
    let result = parse_with_edges(path, SAMPLE_TS).unwrap();
    assert!(!result.edges.is_empty());
    for &(from, _, ref kind) in &result.edges {
        assert_eq!(from, 0);
        assert_eq!(*kind, EdgeKind::Contains);
    }
}

#[test]
fn test_parse_empty_ts() {
    let path = "empty.ts";
    let nodes = parse(path, "").unwrap();
    assert!(nodes.len() <= 1);
}
