# torii

The decisions of the Torii indexer, proved with Verus: how threads are divided, how events wait and
are handed to processors, how a model is registered with its schema, and how a run goes from the
first check to its end.

- `src/allocation.rs`: the division of threads between queries and indexing.
- `src/task_manager.rs`, `src/linked.rs`: the tasks that wait, in a map that keeps an order.
- `src/history.rs`: what waits after any number of additions.
- `src/dispatch.rs`: how the events of a batch are handed to the event processors.
- `src/register_model_with_schema.rs`, `src/selector.rs`: the registration of a model.
- `src/runner.rs`, `src/services.rs`, `src/config.rs`, `src/error.rs`: a run, step by step.
- `src/progress.rs`: how a download is shown.
- `src/events.rs`, `src/distinct.rs`, `src/text.rs`: what the others share.
- `app/`: the provider, the files, the runtimes and the services around the decisions.

What holds of several functions together stands in public proof functions whose names begin with
`law_`. What is believed of other crates stands in the functions marked
`#[verifier::external_body]`, each with a comment that says what it is.
