# subnet_lease

Leases pod subnets out of a cluster network to its nodes. The leases live in an
etcd-compatible key-value store (Xline), one entry for each subnet, and every entry
lives with a lease of the store that its node keeps renewing.

`src/` holds the decisions, verified with Verus:

- `allocate`: the search for free subnets and the choice of one of them;
- `manager`: how a node acquires a lease, renews it and learns that it is lost;
- `registry`: keys, requests and the reading of the store's answers;
- `watch`: the watch on the leases, with its pauses, reports and new starts;
- `ip`, `time`, `text`, `cursor`, `config`, `lease`, `error`: the values these work on;
- `laws`: what holds of all of it together.

Nothing in `src/` performs input or output. A function that needs the store says what
to ask for, and a second one takes the answer. Calls into `ipnetwork`, `chrono`, `rand`
and `regex` stand behind small wrappers, each with a doc comment that says what is
believed of the crate.

`app/` performs the requests with the etcd client, keeps the time and runs the loops.
The format of the configuration, of subnets in keys and of the subnet file comes from
the daemon that embeds it, through the trait `Host`.
