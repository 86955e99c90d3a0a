# rinf_router

Routing of Dart signals (through rinf) to Rust handlers.

`src/` is the verified library: the rules that decide what a handler's
result sends back to Dart (`into_response`), the routing table and the way it
seals routes with their state (`router`), the signal loop's transitions
(`service`), handlers bound to their state and wrapped in layers (`handler`),
state extraction (`extractor`), and the tagging middleware and test signal
(`test_helpers`).

`app/` is the runtime around it: async handlers, tower services and layers,
rinf's receivers and senders, and the task that runs every route.
