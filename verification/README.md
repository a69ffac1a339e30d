# routing

The verified core of a routing node. A network is split into sections; each section is responsible
for the names that start with its prefix, and its elders share a state that they agree on.

* `src/chain/` - the state that the elders share, the history of the section's keys, and the laws
  that hold of them.
* `src/prefix_map.rs` - what is known of other sections, kept up to date across splits.
* `src/states/` - what a peer does while it joins a section, and the states around it.
* `src/node.rs` - how a node is configured and queried.
* `src/encoding.rs`, `src/wire.rs` - plain forms of values, and their bytes.
* the other files in `src/` - names, prefixes, ordered collections, messages and timers.

What is done on the network, on channels and in logs is in `app/`: a joining peer queues what it
wants done, and `app/` carries it out. Signatures are made and checked by functions that the caller
passes in.
