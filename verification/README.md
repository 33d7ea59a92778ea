# strata_sandbox

The rules of Strata's preview sandbox, verified with Verus.

`src/` holds the library: the preview operations and their limits
(`operation`), the bubblewrap command line (`command`), GPU device selection
and Polaris detection (`devices`), acceptance of renderer output (`output`,
`outcome`), the decisions of the wait on a running renderer (`monitor`), the
cancellation flag (`cancel`), the private output directory's name
(`private_output`), and the text handling these need (`text`, `order`).

`app/` performs the work Verus does not see: canonicalising and inspecting
files, listing `/dev`, spawning and polling the renderer, signalling its
process group through `rustix`, and removing the private output directory.
